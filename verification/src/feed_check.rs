//! Which feed documents are handed to the feed parser. `feed-rs` panics on
//! a few inputs; a document is refused exactly where a reading of its bytes
//! cannot rule such an input out. Where it panics, and what is refused:
//! - MediaRSS and iTunes time values (the `itunes:duration` text, the
//!   `start`, `end` and `time` attributes of `media:text` and
//!   `media:thumbnail`) are read with a regular expression whose `\d`
//!   matches any Unicode decimal digit, and each match is parsed with
//!   `unwrap` into a `u64` (hours then multiplied by 3600). Refused: in the
//!   text of an element named `duration`, and anywhere inside a tag named
//!   `text` or `thumbnail`, a non-ASCII character, a character reference,
//!   or a run of more than 15 ASCII digits. The text of an element is read
//!   as the parser joins it: across CDATA sections, comments, processing
//!   instructions and a document type declaration, up to the next tag.
//! - A person field (`author`, `managingEditor`, `webMaster`, `creator`,
//!   `name` elements; `name` members of a JSON feed) is split around an
//!   e-mail address by slicing one byte before the match or one byte after
//!   it, which panics where the character there is non-ASCII. Refused: a
//!   person text where a non-ASCII character stands right before the run of
//!   address characters that ends at an `@`, or right after the run that
//!   follows it; and a person text with a character reference (which may
//!   stand for an `@` or for a non-ASCII character) beside an `@`, a
//!   non-ASCII character or another reference.
//! - An encoding declaration that switches the decoder is only allowed
//!   while the first 64 bytes are still buffered, and panics later.
//!   Accepted, written as `encoding="label"` (either quote, either case):
//!   `UTF-8` declarations before any switch, and one declaration of a few
//!   single-byte encodings that opens the document (after a byte-order
//!   mark at most) and closes within its first 64 bytes. Other encoding
//!   declarations are refused.
//! - Documents that start as UTF-16 are refused: the reading is of
//!   ASCII-compatible bytes. So are a document type declaration with an
//!   internal subset, whose end the reading does not follow, and markup
//!   that the parser rejects anyway (`<!` not opening a comment, a CDATA
//!   section or a document type declaration; `<?>`).
//! Everything else in a document is handed to the parser as it is.

use vstd::prelude::*;

verus! {

/// Where the reading of a document stands.
#[derive(Clone, Copy, PartialEq, Eq, Structural)]
pub enum Mode {
    /// Character data.
    Text,
    /// Inside a start or end tag, outside quotes.
    Tag,
    /// Inside a tag, in a double-quoted value.
    TagDq,
    /// Inside a tag, in a single-quoted value.
    TagSq,
    /// Inside a document type declaration, outside quotes.
    Bang,
    /// Inside a document type declaration, in a double-quoted literal.
    BangDq,
    /// Inside a document type declaration, in a single-quoted literal.
    BangSq,
    /// Inside a comment.
    Comment,
    /// Inside a CDATA section.
    Cdata,
    /// Inside a processing instruction.
    Pi,
    /// In a JSON document, outside strings.
    JsonOut,
    /// In a JSON document, inside a string.
    JsonStr,
}

/// What the parser does with the text being read.
#[derive(Clone, Copy, PartialEq, Eq, Structural)]
pub enum Ctx {
    /// Nothing that can panic.
    Plain,
    /// It is read as a time value.
    Time,
    /// It is split into a name and an e-mail address.
    Person,
}

/// The state of the reading.
#[derive(Clone, Copy)]
pub struct Scan {
    pub mode: Mode,
    /// What the current text is read as.
    pub ctx: Ctx,
    /// What the text after the current tag is read as.
    pub next_ctx: Ctx,
    /// The current tag's attributes may hold time values.
    pub checked: bool,
    /// The current tag's name is still being read.
    pub name_open: bool,
    /// Where the current tag's name starts.
    pub name_start: usize,
    /// The ASCII digits just read in a time value.
    pub run: usize,
    /// The person text holds an `@`.
    pub at: bool,
    /// The person text holds a non-ASCII character.
    pub nonascii: bool,
    /// The character references in the person text: 0, 1, or 2 for more.
    pub refs: u8,
    /// A non-ASCII character meets an address around an `@`.
    pub bad: bool,
    /// The last character read is non-ASCII.
    pub prev_hazard: bool,
    /// The last character read may belong to the part before an `@`.
    pub in_lrun: bool,
    /// The character before the current run of such characters is non-ASCII.
    pub pre_hazard: bool,
    /// The characters since the last `@` may all belong to the part after it.
    pub after_at: bool,
    /// The current processing instruction is an XML declaration.
    pub decl: bool,
    /// Where the current processing instruction starts.
    pub pi_start: usize,
    /// An encoding declaration has switched the decoder.
    pub switched: bool,
    /// The current declaration switches the decoder.
    pub pending: bool,
    /// Where the current JSON string starts.
    pub str_start: usize,
    /// The current JSON string holds an escape.
    pub str_esc: bool,
    /// The last JSON string read may be the key `name`.
    pub nameish: bool,
}

/// An ASCII digit.
pub open spec fn is_digit(c: u8) -> bool {
    48 <= c <= 57
}

/// An ASCII letter.
pub open spec fn is_letter(c: u8) -> bool {
    (65 <= c <= 90) || (97 <= c <= 122)
}

/// An ASCII hexadecimal digit.
pub open spec fn is_hex_digit(c: u8) -> bool {
    is_digit(c) || (97 <= c <= 102) || (65 <= c <= 70)
}

/// The value of a hexadecimal digit.
pub open spec fn hex_digit_value(c: u8) -> int {
    if is_digit(c) {
        c - 48
    } else if 97 <= c <= 102 {
        c - 87
    } else {
        c - 55
    }
}

/// XML white space.
pub open spec fn is_space(c: u8) -> bool {
    c == 32 || c == 9 || c == 10 || c == 13
}

/// A character that may belong to what an e-mail match takes before the
/// `@`: the local part (letters, digits, `.`, `_`, `%`, `+`, `-`), a
/// `mailto:` prefix, a `<[(` delimiter, and the bytes of an entity.
pub open spec fn local_class(c: u8) -> bool {
    is_letter(c) || is_digit(c) || c == 46 || c == 95 || c == 37 || c == 43 || c == 45 || c == 58 || c == 60
        || c == 91 || c == 40 || c == 38 || c == 59 || c == 35
}

/// A character that may belong to what an e-mail match takes after the
/// `@`: the domain (letters, digits, `.`, `-`), a `>])` delimiter, and the
/// bytes of an entity.
pub open spec fn domain_class(c: u8) -> bool {
    is_letter(c) || is_digit(c) || c == 46 || c == 45 || c == 62 || c == 93 || c == 41 || c == 38 || c == 59
        || c == 35
}

/// The character `c` of person text is read (`is_ref`: a character
/// reference starts there). The parser slices one byte before an e-mail
/// match and one byte after it; that fails only where the character there
/// is non-ASCII. A match lies within the run of `local_class` characters
/// before an `@` and the run of `domain_class` characters after it, so the
/// characters just outside these runs are the ones that must be ASCII.
pub open spec fn person_char(s: Scan, c: u8, is_ref: bool) -> Scan {
    let hazard = c >= 128;
    let in_l = local_class(c);
    Scan {
        bad: s.bad || (s.after_at && !domain_class(c) && hazard) || (c == 64 && s.in_lrun && s.pre_hazard),
        after_at: c == 64 || (s.after_at && domain_class(c)),
        pre_hazard: if in_l && !s.in_lrun { s.prev_hazard } else { s.pre_hazard },
        in_lrun: in_l,
        prev_hazard: hazard,
        at: s.at || c == 64,
        nonascii: s.nonascii || hazard,
        refs: if is_ref { if s.refs >= 1 { 2u8 } else { 1u8 } } else { s.refs },
        ..s
    }
}

/// `t` occurs in `b` at `i`.
#[verifier::opaque]
pub open spec fn bytes_at(b: Seq<u8>, i: int, t: Seq<u8>) -> bool {
    0 <= i && i + t.len() <= b.len() && b.subrange(i, i + t.len()) == t
}

/// `c` is the lower-case letter or other byte `l`, in either case.
pub open spec fn ci_eq(c: u8, l: u8) -> bool {
    c == l || (97 <= l <= 122 && c as int == l - 32)
}

/// `t` (lower case) occurs in `b` at `i`, ignoring ASCII case.
#[verifier::opaque]
pub open spec fn ci_bytes_at(b: Seq<u8>, i: int, t: Seq<u8>) -> bool {
    &&& 0 <= i
    &&& i + t.len() <= b.len()
    &&& forall|j: int| 0 <= j < t.len() ==> ci_eq(#[trigger] b[i + j], t[j])
}

/// The encoding label `t` stands at `i`, closed by the quote `q`.
pub open spec fn label_at(b: Seq<u8>, i: int, t: Seq<u8>, q: u8) -> bool {
    ci_bytes_at(b, i, t) && i + t.len() < b.len() && b[i + t.len()] == q
}

/// `<!--`
pub open spec fn comment_open() -> Seq<u8> {
    seq![60u8, 33, 45, 45]
}

/// `-->`
pub open spec fn comment_close() -> Seq<u8> {
    seq![45u8, 45, 62]
}

/// `<![CDATA[`
pub open spec fn cdata_open() -> Seq<u8> {
    seq![60u8, 33, 91, 67, 68, 65, 84, 65, 91]
}

/// `]]>`
pub open spec fn cdata_close() -> Seq<u8> {
    seq![93u8, 93, 62]
}

/// `<?xml`
pub open spec fn decl_open() -> Seq<u8> {
    seq![60u8, 63, 120, 109, 108]
}

/// `?>`
pub open spec fn pi_close() -> Seq<u8> {
    seq![63u8, 62]
}

/// `encoding`
pub open spec fn encoding_word() -> Seq<u8> {
    seq![101u8, 110, 99, 111, 100, 105, 110, 103]
}

/// The UTF-8 byte-order mark.
pub open spec fn utf8_bom() -> Seq<u8> {
    seq![239u8, 187, 191]
}

/// `name`
pub open spec fn name_word() -> Seq<u8> {
    seq![110u8, 97, 109, 101]
}

/// `duration`
pub open spec fn duration_word() -> Seq<u8> {
    seq![100u8, 117, 114, 97, 116, 105, 111, 110]
}

/// `author`
pub open spec fn author_word() -> Seq<u8> {
    seq![97u8, 117, 116, 104, 111, 114]
}

/// `managingEditor`
pub open spec fn managing_editor_word() -> Seq<u8> {
    seq![109u8, 97, 110, 97, 103, 105, 110, 103, 69, 100, 105, 116, 111, 114]
}

/// `webMaster`
pub open spec fn web_master_word() -> Seq<u8> {
    seq![119u8, 101, 98, 77, 97, 115, 116, 101, 114]
}

/// `creator`
pub open spec fn creator_word() -> Seq<u8> {
    seq![99u8, 114, 101, 97, 116, 111, 114]
}

/// `text`
pub open spec fn text_word() -> Seq<u8> {
    seq![116u8, 101, 120, 116]
}

/// `thumbnail`
pub open spec fn thumbnail_word() -> Seq<u8> {
    seq![116u8, 104, 117, 109, 98, 110, 97, 105, 108]
}

/// `utf-8`
pub open spec fn utf8_dash_label() -> Seq<u8> {
    seq![117u8, 116, 102, 45, 56]
}

/// `utf8`
pub open spec fn utf8_label() -> Seq<u8> {
    seq![117u8, 116, 102, 56]
}

/// `iso-8859-1`
pub open spec fn latin1_iso_label() -> Seq<u8> {
    seq![105u8, 115, 111, 45, 56, 56, 53, 57, 45, 49]
}

/// `iso-8859-2`
pub open spec fn latin2_iso_label() -> Seq<u8> {
    seq![105u8, 115, 111, 45, 56, 56, 53, 57, 45, 50]
}

/// `iso-8859-15`
pub open spec fn latin9_iso_label() -> Seq<u8> {
    seq![105u8, 115, 111, 45, 56, 56, 53, 57, 45, 49, 53]
}

/// `latin1`
pub open spec fn latin1_label() -> Seq<u8> {
    seq![108u8, 97, 116, 105, 110, 49]
}

/// `us-ascii`
pub open spec fn ascii_label() -> Seq<u8> {
    seq![117u8, 115, 45, 97, 115, 99, 105, 105]
}

/// `windows-1250`
pub open spec fn cp1250_label() -> Seq<u8> {
    seq![119u8, 105, 110, 100, 111, 119, 115, 45, 49, 50, 53, 48]
}

/// `windows-1251`
pub open spec fn cp1251_label() -> Seq<u8> {
    seq![119u8, 105, 110, 100, 111, 119, 115, 45, 49, 50, 53, 49]
}

/// `windows-1252`
pub open spec fn cp1252_label() -> Seq<u8> {
    seq![119u8, 105, 110, 100, 111, 119, 115, 45, 49, 50, 53, 50]
}

/// A UTF-8 label, closed by `q`, stands at `i`.
pub open spec fn utf8_label_at(b: Seq<u8>, i: int, q: u8) -> bool {
    label_at(b, i, utf8_dash_label(), q) || label_at(b, i, utf8_label(), q)
}

/// The label of an accepted single-byte encoding, closed by `q`, stands at
/// `i`.
pub open spec fn single_byte_label_at(b: Seq<u8>, i: int, q: u8) -> bool {
    ||| label_at(b, i, latin1_iso_label(), q)
    ||| label_at(b, i, latin2_iso_label(), q)
    ||| label_at(b, i, latin9_iso_label(), q)
    ||| label_at(b, i, latin1_label(), q)
    ||| label_at(b, i, ascii_label(), q)
    ||| label_at(b, i, cp1250_label(), q)
    ||| label_at(b, i, cp1251_label(), q)
    ||| label_at(b, i, cp1252_label(), q)
}

/// The local part (after the last `:`) of the name `b[st..e]` is `t`.
pub open spec fn local_is(b: Seq<u8>, st: int, e: int, t: Seq<u8>) -> bool {
    &&& e - t.len() >= st
    &&& bytes_at(b, e - t.len(), t)
    &&& (e - t.len() == st || b[e - t.len() - 1] == 58)
}

/// What the text after a start tag named `b[st..e]` is read as.
pub open spec fn ctx_of_name(b: Seq<u8>, st: int, e: int) -> Ctx {
    if local_is(b, st, e, duration_word()) {
        Ctx::Time
    } else if local_is(b, st, e, author_word()) || local_is(b, st, e, managing_editor_word())
        || local_is(b, st, e, web_master_word()) || local_is(b, st, e, creator_word())
        || local_is(b, st, e, name_word()) {
        Ctx::Person
    } else {
        Ctx::Plain
    }
}

/// A tag named `b[st..e]` may carry time values in its attributes.
pub open spec fn time_attrs(b: Seq<u8>, st: int, e: int) -> bool {
    local_is(b, st, e, text_word()) || local_is(b, st, e, thumbnail_word())
}

/// `&#` stands at `i`: a character reference begins.
pub open spec fn char_ref_at(b: Seq<u8>, i: int) -> bool {
    b[i] == 38 && i + 1 < b.len() && b[i + 1] == 35
}

/// Byte `i` read as part of a time value: no non-ASCII byte, no character
/// reference, at most 15 ASCII digits in a row.
pub open spec fn time_byte(b: Seq<u8>, i: int, s: Scan) -> Option<Scan> {
    let c = b[i];
    if c >= 128 || char_ref_at(b, i) {
        None
    } else if is_digit(c) {
        if s.run >= 15 {
            None
        } else {
            Some(Scan { run: (s.run + 1) as usize, ..s })
        }
    } else {
        Some(Scan { run: 0, ..s })
    }
}

/// Byte `i` read as character data in the current context. In person text
/// an entity stands for an ASCII character; a character reference, for any
/// character.
pub open spec fn xml_content(b: Seq<u8>, i: int, s: Scan) -> Option<Scan> {
    let c = b[i];
    match s.ctx {
        Ctx::Plain => Some(s),
        Ctx::Time => time_byte(b, i, s),
        Ctx::Person => Some(person_char(s, c, char_ref_at(b, i))),
    }
}

/// The person text read so far can be split safely: no non-ASCII
/// character meets an address, and a character reference (which may stand
/// for an `@` or for a non-ASCII character) is the only one of its kind.
pub open spec fn person_safe(s: Scan) -> bool {
    !(s.ctx == Ctx::Person && (s.bad || (s.refs >= 1 && (s.at || s.nonascii || s.refs >= 2))))
}

/// The state at the start of a tag: the text before it has ended.
pub open spec fn tag_start(s: Scan) -> Scan {
    Scan {
        mode: Mode::Tag,
        ctx: Ctx::Plain,
        next_ctx: Ctx::Plain,
        checked: false,
        name_open: false,
        run: 0,
        at: false,
        nonascii: false,
        refs: 0,
        bad: false,
        prev_hazard: false,
        in_lrun: false,
        pre_hazard: false,
        after_at: false,
        ..s
    }
}

/// A `<` at `i` in character data.
pub open spec fn lt_step(b: Seq<u8>, i: int, s: Scan) -> Option<(int, Scan)> {
    if bytes_at(b, i, comment_open()) {
        Some((i + 4, Scan { mode: Mode::Comment, ..s }))
    } else if bytes_at(b, i, cdata_open()) {
        Some((i + 9, Scan { mode: Mode::Cdata, ..s }))
    } else if i + 1 < b.len() && b[i + 1] == 33 {
        if i + 2 < b.len() && (b[i + 2] == 68 || b[i + 2] == 100) {
            Some((i + 2, Scan { mode: Mode::Bang, ..s }))
        } else {
            None
        }
    } else if i + 1 < b.len() && b[i + 1] == 63 {
        if i + 2 < b.len() && b[i + 2] == 62 {
            None
        } else {
            Some((i + 2, Scan { mode: Mode::Pi, decl: bytes_at(b, i, decl_open()), pi_start: i as usize, pending: false, ..s }))
        }
    } else if !person_safe(s) {
        None
    } else if i + 1 < b.len() && b[i + 1] == 47 {
        Some((i + 1, tag_start(s)))
    } else {
        Some((i + 1, Scan { name_open: true, name_start: (i + 1) as usize, ..tag_start(s) }))
    }
}

/// Byte `i` in character data.
pub open spec fn text_step(b: Seq<u8>, i: int, s: Scan) -> Option<(int, Scan)> {
    if b[i] == 60 {
        lt_step(b, i, s)
    } else {
        match xml_content(b, i, s) {
            Some(t) => Some((i + 1, t)),
            None => None,
        }
    }
}

/// The name of the current tag ends at `i`.
pub open spec fn name_end(b: Seq<u8>, i: int, s: Scan) -> Scan {
    Scan {
        name_open: false,
        next_ctx: ctx_of_name(b, s.name_start as int, i),
        checked: time_attrs(b, s.name_start as int, i),
        run: 0,
        ..s
    }
}

/// Byte `i` inside a tag read for its content: the time rule where the
/// tag may carry time values, and the end of the tag's name (at white
/// space, or at the `>` that closes the tag).
pub open spec fn tag_prepare(b: Seq<u8>, i: int, s: Scan) -> Option<Scan> {
    let c = b[i];
    match (if s.checked { time_byte(b, i, s) } else { Some(s) }) {
        None => None,
        Some(s1) => Some(
            if s1.name_open && (is_space(c) || (c == 62 && s1.mode == Mode::Tag)) {
                name_end(b, i, s1)
            } else {
                s1
            },
        ),
    }
}

/// Byte `c` at `i` inside a tag read for its quotes and its end.
pub open spec fn tag_move(c: u8, i: int, s: Scan) -> (int, Scan) {
    if s.mode == Mode::Tag {
        if c == 62 {
            (i + 1, Scan { mode: Mode::Text, ctx: s.next_ctx, checked: false, run: 0, ..s })
        } else if c == 34 {
            (i + 1, Scan { mode: Mode::TagDq, ..s })
        } else if c == 39 {
            (i + 1, Scan { mode: Mode::TagSq, ..s })
        } else {
            (i + 1, s)
        }
    } else if s.mode == Mode::TagDq {
        if c == 34 {
            (i + 1, Scan { mode: Mode::Tag, ..s })
        } else {
            (i + 1, s)
        }
    } else {
        if c == 39 {
            (i + 1, Scan { mode: Mode::Tag, ..s })
        } else {
            (i + 1, s)
        }
    }
}

/// Byte `i` inside a tag (mode `Tag`, `TagDq` or `TagSq`).
pub open spec fn tag_step(b: Seq<u8>, i: int, s: Scan) -> Option<(int, Scan)> {
    match tag_prepare(b, i, s) {
        None => None,
        Some(t) => Some(tag_move(b[i], i, t)),
    }
}

/// Byte `i` inside a document type declaration (mode `Bang`, `BangDq` or
/// `BangSq`). An internal subset is refused.
pub open spec fn bang_step(b: Seq<u8>, i: int, s: Scan) -> Option<(int, Scan)> {
    let c = b[i];
    if s.mode == Mode::Bang {
        if c == 62 {
            Some((i + 1, Scan { mode: Mode::Text, ..s }))
        } else if c == 34 {
            Some((i + 1, Scan { mode: Mode::BangDq, ..s }))
        } else if c == 39 {
            Some((i + 1, Scan { mode: Mode::BangSq, ..s }))
        } else if c == 91 {
            None
        } else {
            Some((i + 1, s))
        }
    } else if s.mode == Mode::BangDq {
        if c == 34 {
            Some((i + 1, Scan { mode: Mode::Bang, ..s }))
        } else {
            Some((i + 1, s))
        }
    } else {
        if c == 39 {
            Some((i + 1, Scan { mode: Mode::Bang, ..s }))
        } else {
            Some((i + 1, s))
        }
    }
}

/// The value of an `encoding` pseudo-attribute, from `k` on: `=`, a quote,
/// an accepted label and the same quote.
pub open spec fn decl_step(b: Seq<u8>, k: int, s: Scan) -> Option<Scan> {
    if !(k + 1 < b.len() && b[k] == 61 && (b[k + 1] == 34 || b[k + 1] == 39)) {
        None
    } else if utf8_label_at(b, k + 2, b[k + 1]) {
        if s.switched {
            None
        } else {
            Some(s)
        }
    } else if single_byte_label_at(b, k + 2, b[k + 1]) {
        if !s.switched && (s.pi_start == 0 || (s.pi_start == 3 && bytes_at(b, 0, utf8_bom()))) {
            Some(Scan { switched: true, pending: true, ..s })
        } else {
            None
        }
    } else {
        None
    }
}

/// Byte `i` inside a processing instruction. A declaration that switches
/// the decoder must close within the first 64 bytes.
pub open spec fn pi_step(b: Seq<u8>, i: int, s: Scan) -> Option<(int, Scan)> {
    if bytes_at(b, i, pi_close()) {
        if s.pending && i + 1 >= 64 {
            None
        } else {
            Some((i + 2, Scan { mode: Mode::Text, decl: false, pending: false, ..s }))
        }
    } else if s.decl && bytes_at(b, i, encoding_word()) {
        match decl_step(b, i + 8, s) {
            Some(t) => Some((i + 8, t)),
            None => None,
        }
    } else {
        Some((i + 1, s))
    }
}

/// Four hexadecimal digits stand at `k`.
pub open spec fn hex4_at(b: Seq<u8>, k: int) -> bool {
    0 <= k && k + 4 <= b.len() && is_hex_digit(b[k]) && is_hex_digit(b[k + 1]) && is_hex_digit(b[k + 2])
        && is_hex_digit(b[k + 3])
}

/// The value of the four hexadecimal digits at `k`.
pub open spec fn hex4(b: Seq<u8>, k: int) -> int {
    hex_digit_value(b[k]) * 4096 + hex_digit_value(b[k + 1]) * 256 + hex_digit_value(b[k + 2]) * 16
        + hex_digit_value(b[k + 3])
}

/// The character `e` (128 for any non-ASCII one) read in a JSON string.
pub open spec fn json_char(s: Scan, e: u8) -> Scan {
    if s.ctx == Ctx::Person {
        person_char(s, e, false)
    } else {
        s
    }
}

/// An escape (`\`) at `i` in a JSON string: in person text a `\u` escape
/// is decoded; other escapes stand for ASCII characters that can neither
/// open nor close a match.
pub open spec fn json_escape(b: Seq<u8>, i: int, s: Scan) -> Option<(int, Scan)> {
    let s1 = Scan { str_esc: true, ..s };
    if i + 1 < b.len() && b[i + 1] == 117 {
        if s.ctx == Ctx::Person {
            if hex4_at(b, i + 2) {
                Some((i + 6, json_char(s1, if hex4(b, i + 2) < 128 { hex4(b, i + 2) as u8 } else { 128 })))
            } else {
                None
            }
        } else {
            Some((i + 2, s1))
        }
    } else if i + 1 < b.len() {
        Some((i + 2, json_char(s1, 32)))
    } else {
        Some((i + 1, s1))
    }
}

/// Byte `i` of a JSON document. A string that follows one that may be the
/// key `name` is read as person text, its escapes decoded.
pub open spec fn json_step(b: Seq<u8>, i: int, s: Scan) -> Option<(int, Scan)> {
    let c = b[i];
    if s.mode == Mode::JsonOut {
        if c == 34 {
            Some((i + 1, Scan {
                mode: Mode::JsonStr,
                str_start: (i + 1) as usize,
                str_esc: false,
                ctx: if s.nameish { Ctx::Person } else { Ctx::Plain },
                at: false,
                nonascii: false,
                refs: 0,
                bad: false,
                prev_hazard: false,
                in_lrun: false,
                pre_hazard: false,
                after_at: false,
                ..s
            }))
        } else {
            Some((i + 1, s))
        }
    } else if c == 34 {
        if !person_safe(s) {
            None
        } else {
            Some((i + 1, Scan {
                mode: Mode::JsonOut,
                ctx: Ctx::Plain,
                nameish: s.str_esc || (i - s.str_start == 4 && bytes_at(b, s.str_start as int, name_word())),
                ..s
            }))
        }
    } else if c == 92 {
        json_escape(b, i, s)
    } else {
        Some((i + 1, json_char(s, c)))
    }
}

/// One step of the reading at byte `i`: the next position and state, or
/// `None` where the document is refused.
#[verifier::opaque]
pub open spec fn step(b: Seq<u8>, i: int, s: Scan) -> Option<(int, Scan)> {
    match s.mode {
        Mode::Text => text_step(b, i, s),
        Mode::Tag | Mode::TagDq | Mode::TagSq => tag_step(b, i, s),
        Mode::Bang | Mode::BangDq | Mode::BangSq => bang_step(b, i, s),
        Mode::Comment => if bytes_at(b, i, comment_close()) {
            Some((i + 3, Scan { mode: Mode::Text, ..s }))
        } else {
            Some((i + 1, s))
        },
        Mode::Cdata => if bytes_at(b, i, cdata_close()) {
            Some((i + 3, Scan { mode: Mode::Text, ..s }))
        } else {
            match xml_content(b, i, s) {
                Some(t) => Some((i + 1, t)),
                None => None,
            }
        },
        Mode::Pi => pi_step(b, i, s),
        Mode::JsonOut | Mode::JsonStr => json_step(b, i, s),
    }
}

/// The rest of the document, from `i` on, read from state `s`, is accepted.
pub open spec fn scan_ok(b: Seq<u8>, i: int, s: Scan) -> bool
    decreases b.len() - i,
{
    if i < 0 || i >= b.len() {
        person_safe(s)
    } else {
        match step(b, i, s) {
            None => false,
            Some((j, t)) => if i < j <= b.len() {
                scan_ok(b, j, t)
            } else {
                false
            },
        }
    }
}

/// The parser reads the document as JSON: of `<` and `{`, `{` comes first.
pub open spec fn json_from(b: Seq<u8>, i: int) -> bool
    decreases b.len() - i,
{
    if i < 0 || i >= b.len() {
        false
    } else if b[i] == 123 {
        true
    } else if b[i] == 60 {
        false
    } else {
        json_from(b, i + 1)
    }
}

/// The state in which a document is first read.
pub open spec fn initial(json: bool) -> Scan {
    Scan {
        mode: if json { Mode::JsonOut } else { Mode::Text },
        ctx: Ctx::Plain,
        next_ctx: Ctx::Plain,
        checked: false,
        name_open: false,
        name_start: 0,
        run: 0,
        at: false,
        nonascii: false,
        refs: 0,
        bad: false,
        prev_hazard: false,
        in_lrun: false,
        pre_hazard: false,
        after_at: false,
        decl: false,
        pi_start: 0,
        switched: false,
        pending: false,
        str_start: 0,
        str_esc: false,
        nameish: false,
    }
}

/// The document starts as UTF-16: a UTF-16 byte-order mark, or `<?` in
/// UTF-16.
pub open spec fn utf16_start(b: Seq<u8>) -> bool {
    ||| bytes_at(b, 0, seq![254u8, 255])
    ||| bytes_at(b, 0, seq![255u8, 254])
    ||| bytes_at(b, 0, seq![0u8, 60, 0, 63])
    ||| bytes_at(b, 0, seq![60u8, 0, 63, 0])
}

/// The document bytes are handed to the feed parser: see the module
/// documentation.
pub open spec fn feed_bytes_accepted(b: Seq<u8>) -> bool {
    !utf16_start(b) && scan_ok(b, 0, initial(json_from(b, 0)))
}

/// Nothing is being read as a time value: character data outside a time
/// element, a tag whose attributes hold no time value, or JSON.
pub open spec fn outside_time_value(s: Scan) -> bool {
    match s.mode {
        Mode::Tag | Mode::TagDq | Mode::TagSq => !s.checked,
        Mode::JsonOut | Mode::JsonStr => true,
        _ => s.ctx != Ctx::Time,
    }
}

/// The digit limit is local to each time value: from a state that reads no
/// time value, a step either still reads none or enters one (the text of a
/// time element, or a tag whose attributes may hold time values) with its
/// count of digits at zero, whatever digits came before.
pub proof fn law_time_values_count_digits_from_zero(b: Seq<u8>, i: int, s: Scan)
    requires
        0 <= i < b.len(),
        outside_time_value(s),
    ensures
        step(b, i, s) matches Some((j, t)) ==> outside_time_value(t) || t.run == 0,
{
    reveal(step);
}

/// A step outcome with its position as an integer.
pub open spec fn lifted(r: Option<(usize, Scan)>) -> Option<(int, Scan)> {
    match r {
        Some((j, t)) => Some((j as int, t)),
        None => None,
    }
}

/// A step outcome moves forward and stays within the document.
pub open spec fn advances(r: Option<(usize, Scan)>, i: int, len: int) -> bool {
    r matches Some((j, _)) ==> i < j <= len
}

/// The fixed byte strings the reading looks for.
pub struct Words {
    pub comment_open: Vec<u8>,
    pub comment_close: Vec<u8>,
    pub cdata_open: Vec<u8>,
    pub cdata_close: Vec<u8>,
    pub decl_open: Vec<u8>,
    pub pi_close: Vec<u8>,
    pub encoding: Vec<u8>,
    pub bom: Vec<u8>,
    pub name: Vec<u8>,
    pub duration: Vec<u8>,
    pub author: Vec<u8>,
    pub managing_editor: Vec<u8>,
    pub web_master: Vec<u8>,
    pub creator: Vec<u8>,
    pub text: Vec<u8>,
    pub thumbnail: Vec<u8>,
    pub utf8_dash: Vec<u8>,
    pub utf8: Vec<u8>,
    pub latin1_iso: Vec<u8>,
    pub latin2_iso: Vec<u8>,
    pub latin9_iso: Vec<u8>,
    pub latin1: Vec<u8>,
    pub ascii: Vec<u8>,
    pub cp1250: Vec<u8>,
    pub cp1251: Vec<u8>,
    pub cp1252: Vec<u8>,
}

/// Each field of `w` holds the byte string it is named after.
pub open spec fn words_ok(w: Words) -> bool {
    &&& w.comment_open@ == comment_open()
    &&& w.comment_close@ == comment_close()
    &&& w.cdata_open@ == cdata_open()
    &&& w.cdata_close@ == cdata_close()
    &&& w.decl_open@ == decl_open()
    &&& w.pi_close@ == pi_close()
    &&& w.encoding@ == encoding_word()
    &&& w.bom@ == utf8_bom()
    &&& w.name@ == name_word()
    &&& w.duration@ == duration_word()
    &&& w.author@ == author_word()
    &&& w.managing_editor@ == managing_editor_word()
    &&& w.web_master@ == web_master_word()
    &&& w.creator@ == creator_word()
    &&& w.text@ == text_word()
    &&& w.thumbnail@ == thumbnail_word()
    &&& w.utf8_dash@ == utf8_dash_label()
    &&& w.utf8@ == utf8_label()
    &&& w.latin1_iso@ == latin1_iso_label()
    &&& w.latin2_iso@ == latin2_iso_label()
    &&& w.latin9_iso@ == latin9_iso_label()
    &&& w.latin1@ == latin1_label()
    &&& w.ascii@ == ascii_label()
    &&& w.cp1250@ == cp1250_label()
    &&& w.cp1251@ == cp1251_label()
    &&& w.cp1252@ == cp1252_label()
}

/// The byte strings the reading looks for.
fn words() -> (w: Words)
    ensures
        words_ok(w),
{
    let w = Words {
        comment_open: vec![60u8, 33, 45, 45],
        comment_close: vec![45u8, 45, 62],
        cdata_open: vec![60u8, 33, 91, 67, 68, 65, 84, 65, 91],
        cdata_close: vec![93u8, 93, 62],
        decl_open: vec![60u8, 63, 120, 109, 108],
        pi_close: vec![63u8, 62],
        encoding: vec![101u8, 110, 99, 111, 100, 105, 110, 103],
        bom: vec![239u8, 187, 191],
        name: vec![110u8, 97, 109, 101],
        duration: vec![100u8, 117, 114, 97, 116, 105, 111, 110],
        author: vec![97u8, 117, 116, 104, 111, 114],
        managing_editor: vec![109u8, 97, 110, 97, 103, 105, 110, 103, 69, 100, 105, 116, 111, 114],
        web_master: vec![119u8, 101, 98, 77, 97, 115, 116, 101, 114],
        creator: vec![99u8, 114, 101, 97, 116, 111, 114],
        text: vec![116u8, 101, 120, 116],
        thumbnail: vec![116u8, 104, 117, 109, 98, 110, 97, 105, 108],
        utf8_dash: vec![117u8, 116, 102, 45, 56],
        utf8: vec![117u8, 116, 102, 56],
        latin1_iso: vec![105u8, 115, 111, 45, 56, 56, 53, 57, 45, 49],
        latin2_iso: vec![105u8, 115, 111, 45, 56, 56, 53, 57, 45, 50],
        latin9_iso: vec![105u8, 115, 111, 45, 56, 56, 53, 57, 45, 49, 53],
        latin1: vec![108u8, 97, 116, 105, 110, 49],
        ascii: vec![117u8, 115, 45, 97, 115, 99, 105, 105],
        cp1250: vec![119u8, 105, 110, 100, 111, 119, 115, 45, 49, 50, 53, 48],
        cp1251: vec![119u8, 105, 110, 100, 111, 119, 115, 45, 49, 50, 53, 49],
        cp1252: vec![119u8, 105, 110, 100, 111, 119, 115, 45, 49, 50, 53, 50],
    };
    assert(w.comment_open@ =~= comment_open());
    assert(w.comment_close@ =~= comment_close());
    assert(w.cdata_open@ =~= cdata_open());
    assert(w.cdata_close@ =~= cdata_close());
    assert(w.decl_open@ =~= decl_open());
    assert(w.pi_close@ =~= pi_close());
    assert(w.encoding@ =~= encoding_word());
    assert(w.bom@ =~= utf8_bom());
    assert(w.name@ =~= name_word());
    assert(w.duration@ =~= duration_word());
    assert(w.author@ =~= author_word());
    assert(w.managing_editor@ =~= managing_editor_word());
    assert(w.web_master@ =~= web_master_word());
    assert(w.creator@ =~= creator_word());
    assert(w.text@ =~= text_word());
    assert(w.thumbnail@ =~= thumbnail_word());
    assert(w.utf8_dash@ =~= utf8_dash_label());
    assert(w.utf8@ =~= utf8_label());
    assert(w.latin1_iso@ =~= latin1_iso_label());
    assert(w.latin2_iso@ =~= latin2_iso_label());
    assert(w.latin9_iso@ =~= latin9_iso_label());
    assert(w.latin1@ =~= latin1_label());
    assert(w.ascii@ =~= ascii_label());
    assert(w.cp1250@ =~= cp1250_label());
    assert(w.cp1251@ =~= cp1251_label());
    assert(w.cp1252@ =~= cp1252_label());
    w
}

/// Where `t` occurs in `b` at `i`, `b[i]` is its first byte.
proof fn lemma_bytes_at_first(b: Seq<u8>, i: int, t: Seq<u8>)
    requires
        bytes_at(b, i, t),
        t.len() > 0,
    ensures
        b[i] == t[0],
{
    reveal(bytes_at);
    assert(b.subrange(i, i + t.len())[0] == b[i]);
}

/// Whether `t` occurs in `b` at `i`.
fn matches_at(b: &[u8], i: usize, t: &Vec<u8>) -> (r: bool)
    ensures
        r == bytes_at(b@, i as int, t@),
        r ==> i + t@.len() <= b@.len(),
{
    let blen = b.len();
    if t.len() > blen || i > blen - t.len() {
        proof {
            reveal(bytes_at);
        }
        return false;
    }
    let mut j: usize = 0;
    while j < t.len()
        invariant
            blen == b@.len(),
            i + t@.len() <= blen,
            j <= t@.len(),
            forall|k: int| 0 <= k < j ==> b@[i + k] == t@[k],
        decreases t.len() - j,
    {
        if b[i + j] != t[j] {
            assert(b@.subrange(i as int, i + t@.len())[j as int] != t@[j as int]);
            proof {
                reveal(bytes_at);
            }
            return false;
        }
        j = j + 1;
    }
    assert(b@.subrange(i as int, i + t@.len()) =~= t@);
    proof {
        reveal(bytes_at);
    }
    true
}

/// Whether `t` (lower case) occurs in `b` at `i`, ignoring ASCII case.
fn ci_matches_at(b: &[u8], i: usize, t: &Vec<u8>) -> (r: bool)
    ensures
        r == ci_bytes_at(b@, i as int, t@),
        r ==> i + t@.len() <= b@.len(),
{
    let blen = b.len();
    if t.len() > blen || i > blen - t.len() {
        proof {
            reveal(ci_bytes_at);
        }
        return false;
    }
    let mut j: usize = 0;
    while j < t.len()
        invariant
            blen == b@.len(),
            i + t@.len() <= blen,
            j <= t@.len(),
            forall|k: int| 0 <= k < j ==> ci_eq(#[trigger] b@[i + k], t@[k]),
        decreases t.len() - j,
    {
        let c = b[i + j];
        let l = t[j];
        if !(c == l || (97 <= l && l <= 122 && c as u16 + 32 == l as u16)) {
            assert(!ci_eq(b@[i + j], t@[j as int]));
            proof {
                reveal(ci_bytes_at);
            }
            return false;
        }
        j = j + 1;
    }
    proof {
        reveal(ci_bytes_at);
    }
    true
}

/// Whether the label `t`, closed by `q`, stands at `i`.
fn label_matches(b: &[u8], i: usize, t: &Vec<u8>, q: u8) -> (r: bool)
    ensures
        r == label_at(b@, i as int, t@, q),
{
    let blen = b.len();
    ci_matches_at(b, i, t) && i + t.len() < blen && b[i + t.len()] == q
}

/// Whether the local part of the name `b[st..e]` is `t`.
fn local_matches(b: &[u8], st: usize, e: usize, t: &Vec<u8>) -> (r: bool)
    requires
        e <= b@.len(),
    ensures
        r == local_is(b@, st as int, e as int, t@),
{
    if e < t.len() || e - t.len() < st {
        return false;
    }
    let k = e - t.len();
    matches_at(b, k, t) && (k == st || b[k - 1] == 58)
}

/// Byte `i` read as part of a time value (`time_byte`).
fn time_byte_exec(b: &[u8], i: usize, s: Scan) -> (r: Option<Scan>)
    requires
        i < b@.len(),
    ensures
        r == time_byte(b@, i as int, s),
{
    let c = b[i];
    if c >= 128 || (c == 38 && i + 1 < b.len() && b[i + 1] == 35) {
        None
    } else if 48 <= c && c <= 57 {
        if s.run >= 15 {
            None
        } else {
            Some(Scan { run: s.run + 1, ..s })
        }
    } else {
        Some(Scan { run: 0, ..s })
    }
}

/// Byte `i` read as character data (`xml_content`).
fn xml_content_exec(b: &[u8], i: usize, s: Scan) -> (r: Option<Scan>)
    requires
        i < b@.len(),
    ensures
        r == xml_content(b@, i as int, s),
{
    let c = b[i];
    match s.ctx {
        Ctx::Plain => Some(s),
        Ctx::Time => time_byte_exec(b, i, s),
        Ctx::Person => {
            let char_ref = c == 38 && i + 1 < b.len() && b[i + 1] == 35;
            Some(person_char_exec(s, c, char_ref))
        },
    }
}

/// Whether `c` may belong to the part of a match before the `@`.
fn local_class_exec(c: u8) -> (r: bool)
    ensures
        r == local_class(c),
{
    (65 <= c && c <= 90) || (97 <= c && c <= 122) || (48 <= c && c <= 57) || c == 46 || c == 95 || c == 37
        || c == 43 || c == 45 || c == 58 || c == 60 || c == 91 || c == 40 || c == 38 || c == 59 || c == 35
}

/// Whether `c` may belong to the part of a match after the `@`.
fn domain_class_exec(c: u8) -> (r: bool)
    ensures
        r == domain_class(c),
{
    (65 <= c && c <= 90) || (97 <= c && c <= 122) || (48 <= c && c <= 57) || c == 46 || c == 45 || c == 62
        || c == 93 || c == 41 || c == 38 || c == 59 || c == 35
}

/// A character of person text is read (`person_char`).
fn person_char_exec(s: Scan, c: u8, is_ref: bool) -> (r: Scan)
    ensures
        r == person_char(s, c, is_ref),
{
    let hazard = c >= 128;
    let in_l = local_class_exec(c);
    let in_d = domain_class_exec(c);
    Scan {
        bad: s.bad || (s.after_at && !in_d && hazard) || (c == 64 && s.in_lrun && s.pre_hazard),
        after_at: c == 64 || (s.after_at && in_d),
        pre_hazard: if in_l && !s.in_lrun { s.prev_hazard } else { s.pre_hazard },
        in_lrun: in_l,
        prev_hazard: hazard,
        at: s.at || c == 64,
        nonascii: s.nonascii || hazard,
        refs: if is_ref { if s.refs >= 1 { 2u8 } else { 1u8 } } else { s.refs },
        ..s
    }
}

/// Whether the person text read so far can be split safely (`person_safe`).
fn person_safe_exec(s: Scan) -> (r: bool)
    ensures
        r == person_safe(s),
{
    !(s.ctx == Ctx::Person && (s.bad || (s.refs >= 1 && (s.at || s.nonascii || s.refs >= 2))))
}

/// The state at the start of a tag (`tag_start`).
fn tag_start_exec(s: Scan) -> (r: Scan)
    ensures
        r == tag_start(s),
{
    Scan {
        mode: Mode::Tag,
        ctx: Ctx::Plain,
        next_ctx: Ctx::Plain,
        checked: false,
        name_open: false,
        run: 0,
        at: false,
        nonascii: false,
        refs: 0,
        bad: false,
        prev_hazard: false,
        in_lrun: false,
        pre_hazard: false,
        after_at: false,
        ..s
    }
}

/// A `<` at `i` in character data (`lt_step`).
fn lt_step_exec(b: &[u8], i: usize, s: Scan, w: &Words) -> (r: Option<(usize, Scan)>)
    requires
        i < b@.len(),
        words_ok(*w),
    ensures
        lifted(r) == lt_step(b@, i as int, s),
        advances(r, i as int, b@.len() as int),
{
    let blen = b.len();
    if matches_at(b, i, &w.comment_open) {
        Some((i + 4, Scan { mode: Mode::Comment, ..s }))
    } else if matches_at(b, i, &w.cdata_open) {
        Some((i + 9, Scan { mode: Mode::Cdata, ..s }))
    } else if i + 1 < blen && b[i + 1] == 33 {
        if i + 2 < blen && (b[i + 2] == 68 || b[i + 2] == 100) {
            Some((i + 2, Scan { mode: Mode::Bang, ..s }))
        } else {
            None
        }
    } else if i + 1 < blen && b[i + 1] == 63 {
        if i + 2 < blen && b[i + 2] == 62 {
            None
        } else {
            let decl = matches_at(b, i, &w.decl_open);
            Some((i + 2, Scan { mode: Mode::Pi, decl: decl, pi_start: i, pending: false, ..s }))
        }
    } else if !person_safe_exec(s) {
        None
    } else if i + 1 < blen && b[i + 1] == 47 {
        Some((i + 1, tag_start_exec(s)))
    } else {
        Some((i + 1, Scan { name_open: true, name_start: i + 1, ..tag_start_exec(s) }))
    }
}

/// Byte `i` in character data (`text_step`).
fn text_step_exec(b: &[u8], i: usize, s: Scan, w: &Words) -> (r: Option<(usize, Scan)>)
    requires
        i < b@.len(),
        words_ok(*w),
    ensures
        lifted(r) == text_step(b@, i as int, s),
        advances(r, i as int, b@.len() as int),
{
    if b[i] == 60 {
        lt_step_exec(b, i, s, w)
    } else {
        match xml_content_exec(b, i, s) {
            Some(t) => Some((i + 1, t)),
            None => None,
        }
    }
}

/// The name of the current tag ends at `i` (`name_end`).
fn name_end_exec(b: &[u8], i: usize, s: Scan, w: &Words) -> (r: Scan)
    requires
        i < b@.len(),
        words_ok(*w),
    ensures
        r == name_end(b@, i as int, s),
{
    let st = s.name_start;
    let next_ctx = if local_matches(b, st, i, &w.duration) {
        Ctx::Time
    } else if local_matches(b, st, i, &w.author) || local_matches(b, st, i, &w.managing_editor)
        || local_matches(b, st, i, &w.web_master) || local_matches(b, st, i, &w.creator)
        || local_matches(b, st, i, &w.name) {
        Ctx::Person
    } else {
        Ctx::Plain
    };
    let checked = local_matches(b, st, i, &w.text) || local_matches(b, st, i, &w.thumbnail);
    Scan { name_open: false, next_ctx: next_ctx, checked: checked, run: 0, ..s }
}

/// Byte `i` inside a tag read for its content (`tag_prepare`).
fn tag_prepare_exec(b: &[u8], i: usize, s: Scan, w: &Words) -> (r: Option<Scan>)
    requires
        i < b@.len(),
        words_ok(*w),
    ensures
        r == tag_prepare(b@, i as int, s),
{
    let c = b[i];
    let checked = if s.checked {
        time_byte_exec(b, i, s)
    } else {
        Some(s)
    };
    match checked {
        None => None,
        Some(s1) => Some(
            if s1.name_open && ((c == 32 || c == 9 || c == 10 || c == 13) || (c == 62 && s1.mode == Mode::Tag)) {
                name_end_exec(b, i, s1, w)
            } else {
                s1
            },
        ),
    }
}

/// Byte `c` at `i`, in a document of `len` bytes, inside a tag read for
/// its quotes and its end (`tag_move`).
fn tag_move_exec(c: u8, i: usize, len: usize, s: Scan) -> (r: (usize, Scan))
    requires
        i < len,
    ensures
        (r.0 as int, r.1) == tag_move(c, i as int, s),
        r.0 == i + 1,
{
    if s.mode == Mode::Tag {
        if c == 62 {
            (i + 1, Scan { mode: Mode::Text, ctx: s.next_ctx, checked: false, run: 0, ..s })
        } else if c == 34 {
            (i + 1, Scan { mode: Mode::TagDq, ..s })
        } else if c == 39 {
            (i + 1, Scan { mode: Mode::TagSq, ..s })
        } else {
            (i + 1, s)
        }
    } else if s.mode == Mode::TagDq {
        if c == 34 {
            (i + 1, Scan { mode: Mode::Tag, ..s })
        } else {
            (i + 1, s)
        }
    } else {
        if c == 39 {
            (i + 1, Scan { mode: Mode::Tag, ..s })
        } else {
            (i + 1, s)
        }
    }
}

/// Byte `i` inside a tag (`tag_step`).
fn tag_step_exec(b: &[u8], i: usize, s: Scan, w: &Words) -> (r: Option<(usize, Scan)>)
    requires
        i < b@.len(),
        words_ok(*w),
    ensures
        lifted(r) == tag_step(b@, i as int, s),
        advances(r, i as int, b@.len() as int),
{
    let blen = b.len();
    match tag_prepare_exec(b, i, s, w) {
        None => None,
        Some(t) => Some(tag_move_exec(b[i], i, blen, t)),
    }
}

/// Byte `i` inside a document type declaration (`bang_step`).
fn bang_step_exec(b: &[u8], i: usize, s: Scan) -> (r: Option<(usize, Scan)>)
    requires
        i < b@.len(),
    ensures
        lifted(r) == bang_step(b@, i as int, s),
        advances(r, i as int, b@.len() as int),
{
    let c = b[i];
    if s.mode == Mode::Bang {
        if c == 62 {
            Some((i + 1, Scan { mode: Mode::Text, ..s }))
        } else if c == 34 {
            Some((i + 1, Scan { mode: Mode::BangDq, ..s }))
        } else if c == 39 {
            Some((i + 1, Scan { mode: Mode::BangSq, ..s }))
        } else if c == 91 {
            None
        } else {
            Some((i + 1, s))
        }
    } else if s.mode == Mode::BangDq {
        if c == 34 {
            Some((i + 1, Scan { mode: Mode::Bang, ..s }))
        } else {
            Some((i + 1, s))
        }
    } else {
        if c == 39 {
            Some((i + 1, Scan { mode: Mode::Bang, ..s }))
        } else {
            Some((i + 1, s))
        }
    }
}

/// The value of an `encoding` pseudo-attribute from `k` on (`decl_step`).
fn decl_step_exec(b: &[u8], k: usize, s: Scan, w: &Words) -> (r: Option<Scan>)
    requires
        k <= b@.len(),
        words_ok(*w),
    ensures
        r == decl_step(b@, k as int, s),
{
    let blen = b.len();
    if !(k < blen && blen - k > 1 && b[k] == 61 && (b[k + 1] == 34 || b[k + 1] == 39)) {
        return None;
    }
    let q = b[k + 1];
    let v = k + 2;
    if label_matches(b, v, &w.utf8_dash, q) || label_matches(b, v, &w.utf8, q) {
        if s.switched {
            None
        } else {
            Some(s)
        }
    } else if label_matches(b, v, &w.latin1_iso, q) || label_matches(b, v, &w.latin2_iso, q)
        || label_matches(b, v, &w.latin9_iso, q) || label_matches(b, v, &w.latin1, q)
        || label_matches(b, v, &w.ascii, q) || label_matches(b, v, &w.cp1250, q)
        || label_matches(b, v, &w.cp1251, q) || label_matches(b, v, &w.cp1252, q) {
        if !s.switched && (s.pi_start == 0 || (s.pi_start == 3 && matches_at(b, 0, &w.bom))) {
            Some(Scan { switched: true, pending: true, ..s })
        } else {
            None
        }
    } else {
        None
    }
}

/// Byte `i` inside a processing instruction (`pi_step`).
fn pi_step_exec(b: &[u8], i: usize, s: Scan, w: &Words) -> (r: Option<(usize, Scan)>)
    requires
        i < b@.len(),
        words_ok(*w),
    ensures
        lifted(r) == pi_step(b@, i as int, s),
        advances(r, i as int, b@.len() as int),
{
    let blen = b.len();
    if matches_at(b, i, &w.pi_close) {
        if s.pending && i + 1 >= 64 {
            None
        } else {
            Some((i + 2, Scan { mode: Mode::Text, decl: false, pending: false, ..s }))
        }
    } else if s.decl && matches_at(b, i, &w.encoding) {
        match decl_step_exec(b, i + 8, s, w) {
            Some(t) => Some((i + 8, t)),
            None => None,
        }
    } else {
        Some((i + 1, s))
    }
}

/// The value of a hexadecimal digit (`hex_digit_value`).
fn hex_value_exec(c: u8) -> (r: u32)
    requires
        is_hex_digit(c),
    ensures
        r as int == hex_digit_value(c),
        r < 16,
{
    if 48 <= c && c <= 57 {
        (c - 48) as u32
    } else if 97 <= c && c <= 102 {
        (c - 87) as u32
    } else {
        (c - 55) as u32
    }
}

/// Whether `c` is a hexadecimal digit.
fn hex_digit_exec(c: u8) -> (r: bool)
    ensures
        r == is_hex_digit(c),
{
    (48 <= c && c <= 57) || (97 <= c && c <= 102) || (65 <= c && c <= 70)
}

/// The character `e` read in a JSON string (`json_char`).
fn json_char_exec(s: Scan, e: u8) -> (r: Scan)
    ensures
        r == json_char(s, e),
{
    if s.ctx == Ctx::Person {
        person_char_exec(s, e, false)
    } else {
        s
    }
}

/// An escape at `i` in a JSON string (`json_escape`).
fn json_escape_exec(b: &[u8], i: usize, s: Scan) -> (r: Option<(usize, Scan)>)
    requires
        i < b@.len(),
    ensures
        lifted(r) == json_escape(b@, i as int, s),
        advances(r, i as int, b@.len() as int),
{
    let blen = b.len();
    let s1 = Scan { str_esc: true, ..s };
    if i + 1 < blen && b[i + 1] == 117 {
        if s.ctx == Ctx::Person {
            if blen - i >= 6 && hex_digit_exec(b[i + 2]) && hex_digit_exec(b[i + 3]) && hex_digit_exec(b[i + 4])
                && hex_digit_exec(b[i + 5]) {
                let v = hex_value_exec(b[i + 2]) * 4096 + hex_value_exec(b[i + 3]) * 256 + hex_value_exec(b[i + 4]) * 16
                    + hex_value_exec(b[i + 5]);
                let e: u8 = if v < 128 { v as u8 } else { 128 };
                Some((i + 6, json_char_exec(s1, e)))
            } else {
                None
            }
        } else {
            Some((i + 2, s1))
        }
    } else if i + 1 < blen {
        Some((i + 2, json_char_exec(s1, 32)))
    } else {
        Some((i + 1, s1))
    }
}

/// Byte `i` of a JSON document (`json_step`).
fn json_step_exec(b: &[u8], i: usize, s: Scan, w: &Words) -> (r: Option<(usize, Scan)>)
    requires
        i < b@.len(),
        words_ok(*w),
    ensures
        lifted(r) == json_step(b@, i as int, s),
        advances(r, i as int, b@.len() as int),
{
    let blen = b.len();
    let c = b[i];
    if s.mode == Mode::JsonOut {
        if c == 34 {
            Some((i + 1, Scan {
                mode: Mode::JsonStr,
                str_start: i + 1,
                str_esc: false,
                ctx: if s.nameish { Ctx::Person } else { Ctx::Plain },
                at: false,
                nonascii: false,
                refs: 0,
                bad: false,
                prev_hazard: false,
                in_lrun: false,
                pre_hazard: false,
                after_at: false,
                ..s
            }))
        } else {
            Some((i + 1, s))
        }
    } else if c == 34 {
        if !person_safe_exec(s) {
            None
        } else {
            let is_name = s.str_start <= i && i - s.str_start == 4 && matches_at(b, s.str_start, &w.name);
            Some((i + 1, Scan { mode: Mode::JsonOut, ctx: Ctx::Plain, nameish: s.str_esc || is_name, ..s }))
        }
    } else if c == 92 {
        json_escape_exec(b, i, s)
    } else {
        Some((i + 1, json_char_exec(s, c)))
    }
}

/// One step of the reading at byte `i` (`step`).
fn step_exec(b: &[u8], i: usize, s: Scan, w: &Words) -> (r: Option<(usize, Scan)>)
    requires
        i < b@.len(),
        words_ok(*w),
    ensures
        lifted(r) == step(b@, i as int, s),
        advances(r, i as int, b@.len() as int),
{
    reveal(step);
    match s.mode {
        Mode::Text => text_step_exec(b, i, s, w),
        Mode::Tag | Mode::TagDq | Mode::TagSq => tag_step_exec(b, i, s, w),
        Mode::Bang | Mode::BangDq | Mode::BangSq => bang_step_exec(b, i, s),
        Mode::Comment => {
            if b[i] == 45 && matches_at(b, i, &w.comment_close) {
                Some((i + 3, Scan { mode: Mode::Text, ..s }))
            } else {
                proof {
                    if bytes_at(b@, i as int, comment_close()) {
                        lemma_bytes_at_first(b@, i as int, comment_close());
                    }
                }
                Some((i + 1, s))
            }
        },
        Mode::Cdata => {
            if b[i] == 93 && matches_at(b, i, &w.cdata_close) {
                Some((i + 3, Scan { mode: Mode::Text, ..s }))
            } else {
                proof {
                    if bytes_at(b@, i as int, cdata_close()) {
                        lemma_bytes_at_first(b@, i as int, cdata_close());
                    }
                }
                match xml_content_exec(b, i, s) {
                    Some(t) => Some((i + 1, t)),
                    None => None,
                }
            }
        },
        Mode::Pi => pi_step_exec(b, i, s, w),
        Mode::JsonOut | Mode::JsonStr => json_step_exec(b, i, s, w),
    }
}

/// Whether the parser reads the document as JSON (`json_from(b, 0)`).
fn json_document(b: &[u8]) -> (r: bool)
    ensures
        r == json_from(b@, 0),
{
    let mut i: usize = 0;
    while i < b.len()
        invariant
            i <= b@.len(),
            json_from(b@, 0) == json_from(b@, i as int),
        decreases b.len() - i,
    {
        if b[i] == 123 {
            return true;
        }
        if b[i] == 60 {
            return false;
        }
        i = i + 1;
    }
    false
}

/// Whether the document starts as UTF-16 (`utf16_start`).
fn starts_as_utf16(b: &[u8]) -> (r: bool)
    ensures
        r == utf16_start(b@),
{
    let n = b.len();
    reveal(bytes_at);
    let r = (n >= 2 && b[0] == 254 && b[1] == 255) || (n >= 2 && b[0] == 255 && b[1] == 254)
        || (n >= 4 && b[0] == 0 && b[1] == 60 && b[2] == 0 && b[3] == 63)
        || (n >= 4 && b[0] == 60 && b[1] == 0 && b[2] == 63 && b[3] == 0);
    proof {
        if n >= 2 {
            assert(b@.subrange(0, 2) =~= seq![b@[0], b@[1]]);
        }
        if n >= 4 {
            assert(b@.subrange(0, 4) =~= seq![b@[0], b@[1], b@[2], b@[3]]);
        }
    }
    r
}

/// Whether feed bytes are handed to the feed parser (`feed_bytes_accepted`).
pub fn accepts_feed_bytes(b: &[u8]) -> (r: bool)
    ensures
        r == feed_bytes_accepted(b@),
{
    if starts_as_utf16(b) {
        return false;
    }
    let w = words();
    let json = json_document(b);
    let mut s = Scan {
        mode: if json { Mode::JsonOut } else { Mode::Text },
        ctx: Ctx::Plain,
        next_ctx: Ctx::Plain,
        checked: false,
        name_open: false,
        name_start: 0,
        run: 0,
        at: false,
        nonascii: false,
        refs: 0,
        bad: false,
        prev_hazard: false,
        in_lrun: false,
        pre_hazard: false,
        after_at: false,
        decl: false,
        pi_start: 0,
        switched: false,
        pending: false,
        str_start: 0,
        str_esc: false,
        nameish: false,
    };
    let mut i: usize = 0;
    while i < b.len()
        invariant
            i <= b@.len(),
            words_ok(w),
            scan_ok(b@, 0, initial(json_from(b@, 0))) == scan_ok(b@, i as int, s),
        decreases b.len() - i,
    {
        match step_exec(b, i, s, &w) {
            None => {
                return false;
            },
            Some((j, t)) => {
                i = j;
                s = t;
            },
        }
    }
    person_safe_exec(s)
}

} // verus!
