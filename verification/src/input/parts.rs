//! Input parts: the text and attachments one user turn carries, and how a
//! submission is validated.
//!
//! The one security decision here is [`ALLOWED_URL_PROTOCOLS`]: `data:`,
//! `http:` and `https:`. A trusted client resolves a local path and inlines
//! the bytes itself; letting a remote client submit `file:` directly would
//! turn the gateway into a local-file reference bridge. The check is on the
//! parsed scheme, not on a prefix match.

use vstd::prelude::*;
use crate::chars::{chars_of, lowercase_text, push_decimal, decimal_seq, string_from_chars, to_lowercase};
use crate::pattern::{captures, regex_captures};
use crate::text::{bounded_utf16_chars, take_utf16, trim, trim_seq};

verus! {

/// How many parts one submission may carry.
pub const MAX_INPUT_PARTS: usize = 16;

/// The largest single attachment, in bytes (8 MiB).
pub const MAX_INPUT_FILE_BYTES: usize = 8388608;

/// The largest total attachment payload for one turn, in bytes (12 MiB).
pub const MAX_INPUT_TOTAL_FILE_BYTES: usize = 12582912;

/// The `_meta` key an input reference is written under.
pub const INPUT_REF_META_KEY: &'static str = "via/inputRef";

/// The three URL schemes an attachment may use.
pub const ALLOWED_URL_PROTOCOLS: [&'static str; 3] = ["data", "http", "https"];

/// The bound on a free-text field, in UTF-16 units.
pub const MAX_TEXT_CHARS: usize = 100000;

/// The bound on a filename.
pub const MAX_FILENAME_CHARS: usize = 240;

/// The bound on a MIME type.
pub const MAX_MIME_CHARS: usize = 160;

/// The bound on a content URL (20 Mi characters).
pub const MAX_URL_CHARS: usize = 20971520;

/// The bound on a source path or a source text value.
pub const MAX_SOURCE_CHARS: usize = 2048;

/// The bound on a rendered attachment label.
pub const MAX_LABEL_CHARS: usize = 120;

/// The base64 `data:` URL form: a MIME type, an optional charset, and a
/// base64 payload, case-insensitively.
pub const DATA_URL_PATTERN: &'static str = "(?is)^data:([^;,]+)(?:;charset=([^;,]+))?;base64,([a-z\\d+/=\\s]+)$";

/// Where an attachment came from.
#[derive(Clone, Copy, Debug, Default, PartialEq, Eq)]
pub enum SourceKind {
    /// Pasted.
    Clipboard,
    /// Read from disk by a trusted client.
    #[default]
    File,
    /// Named by a URI.
    Resource,
}

impl SourceKind {
    /// The wire spelling.
    pub open spec fn wire(self) -> Seq<char> {
        match self {
            SourceKind::Clipboard => "clipboard"@,
            SourceKind::File => "file"@,
            SourceKind::Resource => "resource"@,
        }
    }

    /// The wire spelling.
    pub fn as_str(self) -> (r: &'static str)
        ensures
            r@ == self.wire(),
    {
        match self {
            SourceKind::Clipboard => "clipboard",
            SourceKind::File => "file",
            SourceKind::Resource => "resource",
        }
    }

    /// Parse a wire spelling; anything unrecognized is a file.
    pub fn from_wire_or_file(value: &str) -> (r: Self)
        ensures
            r == (if value@ == "clipboard"@ {
                SourceKind::Clipboard
            } else if value@ == "resource"@ {
                SourceKind::Resource
            } else {
                SourceKind::File
            }),
    {
        if crate::chars::str_eq(value, "clipboard") {
            SourceKind::Clipboard
        } else if crate::chars::str_eq(value, "resource") {
            SourceKind::Resource
        } else {
            SourceKind::File
        }
    }
}

/// The textual anchor bound to an attachment; the offsets index into the
/// turn's text.
#[derive(Clone, Debug, Default, PartialEq, Eq)]
pub struct SourceText {
    /// The anchor text itself.
    pub value: String,
    /// The anchor's start offset in the turn text, in UTF-16 units.
    pub start: Option<i64>,
    /// The anchor's end offset in the turn text, in UTF-16 units.
    pub end: Option<i64>,
}

/// Where an attachment came from, in full.
#[derive(Clone, Debug, Default, PartialEq, Eq)]
pub struct PartSource {
    /// Clipboard, file or resource.
    pub kind: SourceKind,
    /// The originating path, when the client knows one.
    pub path: Option<String>,
    /// The textual anchor.
    pub text: Option<SourceText>,
}

/// The `_meta` bag of an attachment, as far as this crate reads it: the
/// input reference written under [`INPUT_REF_META_KEY`], when that entry is a
/// string.
#[derive(Clone, Debug, Default, PartialEq, Eq)]
pub struct PartMeta {
    /// The `input_N` reference.
    pub input_ref: Option<String>,
}

/// One part of a user turn.
#[derive(Clone, Debug, PartialEq, Eq)]
pub enum InputPart {
    /// A text fragment.
    Text {
        /// The text.
        text: String,
    },
    /// An attachment.
    File {
        /// The MIME type, lowercased.
        mime: String,
        /// The original filename, when the client supplied one.
        filename: Option<String>,
        /// The content URL.
        url: String,
        /// Where it came from.
        source: Option<PartSource>,
        /// The `_meta` bag.
        meta: Option<PartMeta>,
    },
}

/// A source anchor, as sequences.
pub struct SourceTextView {
    /// The anchor text.
    pub value: Seq<char>,
    /// The start offset.
    pub start: Option<i64>,
    /// The end offset.
    pub end: Option<i64>,
}

/// A part source, as sequences.
pub struct PartSourceView {
    /// The kind.
    pub kind: SourceKind,
    /// The path.
    pub path: Option<Seq<char>>,
    /// The anchor.
    pub text: Option<SourceTextView>,
}

/// An input part, as sequences.
pub enum InputPartView {
    /// A text fragment.
    Text(Seq<char>),
    /// An attachment.
    File {
        /// The MIME type.
        mime: Seq<char>,
        /// The filename.
        filename: Option<Seq<char>>,
        /// The content URL.
        url: Seq<char>,
        /// The source.
        source: Option<PartSourceView>,
        /// The `_meta` bag: absent, or present with or without a reference.
        input_ref: Option<Option<Seq<char>>>,
    },
}

/// An optional string, as a sequence.
pub open spec fn opt_seq(s: Option<String>) -> Option<Seq<char>> {
    match s {
        Some(v) => Some(v@),
        None => None,
    }
}

impl SourceText {
    /// The anchor, as sequences.
    pub open spec fn view(&self) -> SourceTextView {
        SourceTextView { value: self.value@, start: self.start, end: self.end }
    }
}

/// An optional anchor, as sequences.
pub open spec fn opt_text_view(t: Option<SourceText>) -> Option<SourceTextView> {
    match t {
        Some(v) => Some(v.view()),
        None => None,
    }
}

impl PartSource {
    /// The source, as sequences.
    pub open spec fn view(&self) -> PartSourceView {
        PartSourceView { kind: self.kind, path: opt_seq(self.path), text: opt_text_view(self.text) }
    }
}

/// An optional source, as sequences.
pub open spec fn opt_source_view(s: Option<PartSource>) -> Option<PartSourceView> {
    match s {
        Some(v) => Some(v.view()),
        None => None,
    }
}

impl InputPart {
    /// The part, as sequences.
    pub open spec fn view(&self) -> InputPartView {
        match self {
            InputPart::Text { text } => InputPartView::Text(text@),
            InputPart::File { mime, filename, url, source, meta } => InputPartView::File {
                mime: mime@,
                filename: opt_seq(*filename),
                url: url@,
                source: opt_source_view(*source),
                input_ref: match meta {
                    Some(m) => Some(opt_seq(m.input_ref)),
                    None => None,
                },
            },
        }
    }
}

/// The parts, as sequences.
pub open spec fn part_views(parts: Seq<InputPart>) -> Seq<InputPartView> {
    Seq::new(parts.len(), |i: int| parts[i].view())
}

impl InputPartView {
    /// Whether this is a file part.
    pub open spec fn is_file(self) -> bool {
        self is File
    }

    /// The MIME type, for a file part.
    pub open spec fn mime(self) -> Seq<char> {
        match self {
            InputPartView::File { mime, .. } => mime,
            InputPartView::Text(_) => Seq::empty(),
        }
    }

    /// The content URL, for a file part.
    pub open spec fn url(self) -> Seq<char> {
        match self {
            InputPartView::File { url, .. } => url,
            InputPartView::Text(_) => Seq::empty(),
        }
    }

    /// The filename, for a file part.
    pub open spec fn filename(self) -> Option<Seq<char>> {
        match self {
            InputPartView::File { filename, .. } => filename,
            InputPartView::Text(_) => None,
        }
    }

    /// The source, for a file part.
    pub open spec fn source(self) -> Option<PartSourceView> {
        match self {
            InputPartView::File { source, .. } => source,
            InputPartView::Text(_) => None,
        }
    }

    /// The `input_N` reference bound to this part, trimmed, or empty.
    pub open spec fn reference(self) -> Seq<char> {
        match self {
            InputPartView::File { input_ref: Some(Some(r)), .. } => trim_seq(r),
            _ => Seq::empty(),
        }
    }
}

impl InputPart {
    /// A text part.
    pub fn text(text: &str) -> (r: Self)
        ensures
            r.view() == InputPartView::Text(text@),
    {
        InputPart::Text { text: text.to_owned() }
    }

    /// A file part with no filename, source or meta.
    pub fn file(mime: &str, url: &str) -> (r: Self)
        ensures
            r.view() == (InputPartView::File { mime: mime@, filename: None, url: url@, source: None, input_ref: None }),
    {
        InputPart::File { mime: mime.to_owned(), filename: None, url: url.to_owned(), source: None, meta: None }
    }

    /// Whether this is a file part.
    pub fn is_file(&self) -> (r: bool)
        ensures
            r == self.view().is_file(),
    {
        match self {
            InputPart::File { .. } => true,
            InputPart::Text { .. } => false,
        }
    }

    /// The MIME type, for a file part; empty for text.
    pub fn mime(&self) -> (r: &str)
        ensures
            r@ == self.view().mime(),
    {
        proof {
            reveal_strlit("");
        }
        match self {
            InputPart::File { mime, .. } => mime.as_str(),
            InputPart::Text { .. } => "",
        }
    }

    /// The content URL, for a file part; empty for text.
    pub fn url(&self) -> (r: &str)
        ensures
            r@ == self.view().url(),
    {
        proof {
            reveal_strlit("");
        }
        match self {
            InputPart::File { url, .. } => url.as_str(),
            InputPart::Text { .. } => "",
        }
    }

    /// The filename, for a file part.
    pub fn filename(&self) -> (r: Option<&str>)
        ensures
            match r {
                Some(f) => self.view().filename() == Some(f@),
                None => self.view().filename() is None,
            },
    {
        match self {
            InputPart::File { filename: Some(f), .. } => Some(f.as_str()),
            _ => None,
        }
    }

    /// The source, for a file part.
    pub fn source(&self) -> (r: Option<&PartSource>)
        ensures
            match r {
                Some(s) => self.view().source() == Some(s.view()),
                None => self.view().source() is None,
            },
    {
        match self {
            InputPart::File { source: Some(s), .. } => Some(s),
            _ => None,
        }
    }

    /// The `input_N` reference bound to this part, trimmed; empty when there
    /// is none.
    pub fn reference(&self) -> (r: &str)
        ensures
            r@ == self.view().reference(),
    {
        proof {
            reveal_strlit("");
        }
        match self {
            InputPart::File { meta: Some(PartMeta { input_ref: Some(r) }), .. } => trim(r.as_str()),
            _ => "",
        }
    }

    /// Bind `reference` to this part. A blank reference, or a text part,
    /// leaves the part unchanged.
    pub fn with_reference(self, reference: &str) -> (r: Self)
        ensures
            trim_seq(reference@).len() == 0 || !self.view().is_file() ==> r == self,
            trim_seq(reference@).len() > 0 && self.view().is_file() ==> r.view() == (InputPartView::File {
                mime: self.view().mime(),
                filename: self.view().filename(),
                url: self.view().url(),
                source: self.view().source(),
                input_ref: Some(Some(trim_seq(reference@))),
            }),
    {
        let value = trim(reference);
        if value.unicode_len() == 0 {
            return self;
        }
        match self {
            InputPart::File { mime, filename, url, source, meta: _ } => InputPart::File {
                mime,
                filename,
                url,
                source,
                meta: Some(PartMeta { input_ref: Some(value.to_owned()) }),
            },
            InputPart::Text { text } => InputPart::Text { text },
        }
    }
}

/// Whether Rust's `char::is_whitespace` holds: the Unicode `White_Space`
/// property.
pub open spec fn is_rust_whitespace(c: char) -> bool {
    let v = c as u32;
    (9 <= v <= 13) || v == 32 || v == 0x85 || v == 0xA0 || v == 0x1680 || (0x2000 <= v <= 0x200A) || v == 0x2028
        || v == 0x2029 || v == 0x202F || v == 0x205F || v == 0x3000
}

/// `char::is_whitespace`.
pub fn is_whitespace_char(c: char) -> (r: bool)
    ensures
        r == is_rust_whitespace(c),
{
    let v = c as u32;
    (9 <= v && v <= 13) || v == 32 || v == 0x85 || v == 0xA0 || v == 0x1680 || (0x2000 <= v && v <= 0x200A)
        || v == 0x2028 || v == 0x2029 || v == 0x202F || v == 0x205F || v == 0x3000
}

/// `s` with every whitespace character removed.
pub open spec fn without_whitespace(s: Seq<char>) -> Seq<char>
    decreases s.len(),
{
    if s.len() == 0 {
        s
    } else if is_rust_whitespace(s.last()) {
        without_whitespace(s.drop_last())
    } else {
        without_whitespace(s.drop_last()).push(s.last())
    }
}

/// `s` with every NUL removed.
pub open spec fn without_nul(s: Seq<char>) -> Seq<char>
    decreases s.len(),
{
    if s.len() == 0 {
        s
    } else if s.last() == '\0' {
        without_nul(s.drop_last())
    } else {
        without_nul(s.drop_last()).push(s.last())
    }
}

fn strip_whitespace(chars: &[char]) -> (r: Vec<char>)
    ensures
        r@ == without_whitespace(chars@),
{
    let mut out: Vec<char> = Vec::new();
    let mut i: usize = 0;
    while i < chars.len()
        invariant
            i <= chars@.len(),
            out@ == without_whitespace(chars@.take(i as int)),
        decreases chars.len() - i,
    {
        assert(chars@.take(i + 1).drop_last() =~= chars@.take(i as int));
        if !is_whitespace_char(chars[i]) {
            out.push(chars[i]);
        }
        i = i + 1;
    }
    assert(chars@.take(chars@.len() as int) =~= chars@);
    out
}

fn strip_nul(chars: &[char]) -> (r: Vec<char>)
    ensures
        r@ == without_nul(chars@),
{
    let mut out: Vec<char> = Vec::new();
    let mut i: usize = 0;
    while i < chars.len()
        invariant
            i <= chars@.len(),
            out@ == without_nul(chars@.take(i as int)),
        decreases chars.len() - i,
    {
        assert(chars@.take(i + 1).drop_last() =~= chars@.take(i as int));
        if chars[i] != '\0' {
            out.push(chars[i]);
        }
        i = i + 1;
    }
    assert(chars@.take(chars@.len() as int) =~= chars@);
    out
}

/// How many bytes UTF-8 encodes `c` in.
pub open spec fn utf8_width(c: char) -> nat {
    let v = c as u32;
    if v < 0x80 {
        1
    } else if v < 0x800 {
        2
    } else if v < 0x10000 {
        3
    } else {
        4
    }
}

/// The UTF-8 length of `s`, in bytes.
pub open spec fn utf8_len(s: Seq<char>) -> nat
    decreases s.len(),
{
    if s.len() == 0 {
        0
    } else {
        utf8_len(s.drop_last()) + utf8_width(s.last())
    }
}

/// The byte length of `s`.
///
/// Trusted: wraps `str::len`, which std documents as the length in bytes of
/// the string's UTF-8 encoding, that is, the sum of each character's
/// encoded width.
#[verifier::external_body]
pub(crate) fn byte_len(s: &str) -> (r: usize)
    ensures
        r == utf8_len(s@),
{
    s.len()
}

/// A string's UTF-16 length never exceeds its UTF-8 length.
pub proof fn lemma_utf16_within_utf8(s: Seq<char>)
    ensures
        crate::text::utf16_units(s) <= utf8_len(s),
    decreases s.len(),
{
    if s.len() > 0 {
        lemma_utf16_within_utf8(s.drop_last());
    }
}

/// The decoded length of a base64 payload, by length arithmetic: whitespace
/// dropped, three bytes per four characters, less the `=` padding.
pub open spec fn decoded_len_spec(value: Seq<char>) -> nat {
    let c = without_whitespace(value);
    if c.len() == 0 {
        0
    } else {
        let padding: int = if c.len() >= 2 && c[c.len() - 1] == '=' && c[c.len() - 2] == '=' {
            2
        } else if c[c.len() - 1] == '=' {
            1
        } else {
            0
        };
        let whole: int = (utf8_len(c) * 3 / 4) as int;
        if whole > padding {
            (whole - padding) as nat
        } else {
            0
        }
    }
}

/// The decoded length of a base64 payload, without decoding it: decoding a
/// large string to find out it is too large is the attack.
pub fn decoded_base64_bytes(value: &str) -> (r: usize)
    ensures
        r == decoded_len_spec(value@),
{
    let chars = chars_of(value);
    let content = strip_whitespace(&chars);
    let n = content.len();
    if n == 0 {
        return 0;
    }
    let padding: usize = if n >= 2 && content[n - 1] == '=' && content[n - 2] == '=' {
        2
    } else if content[n - 1] == '=' {
        1
    } else {
        0
    };
    let text = string_from_chars(&content);
    let bytes = byte_len(text.as_str());
    let whole = (bytes / 4) * 3 + (bytes % 4) * 3 / 4;
    assert(whole == bytes * 3 / 4) by (nonlinear_arith)
        requires
            whole == (bytes / 4) * 3 + (bytes % 4) * 3 / 4,
    ;
    if whole > padding {
        whole - padding
    } else {
        0
    }
}

/// A parsed `data:` URL.
#[derive(Clone, Debug, PartialEq, Eq)]
pub struct DataUrl {
    /// The declared MIME type, lowercased.
    pub mime_type: String,
    /// The declared charset, or empty.
    pub charset: String,
    /// The base64 payload with whitespace stripped.
    pub data: String,
    /// The decoded byte length.
    pub bytes: usize,
}

/// Capture group `i`'s text, or empty when it did not participate.
pub open spec fn group_text(g: Seq<Option<Seq<char>>>, i: int) -> Seq<char> {
    if 0 <= i < g.len() {
        match g[i] {
            Some(s) => s,
            None => Seq::empty(),
        }
    } else {
        Seq::empty()
    }
}

/// The fields of a parsed `data:` URL: MIME, charset, payload, byte length.
pub open spec fn data_url_spec(value: Seq<char>) -> Option<(Seq<char>, Seq<char>, Seq<char>, nat)> {
    match regex_captures(DATA_URL_PATTERN@, value) {
        Some(g) => Some(data_url_fields(g)),
        None => None,
    }
}

/// The fields of a `data:` URL from its pattern groups: the MIME type
/// (group 1), lowercased; the charset (group 2); the payload (group 3) with
/// its whitespace stripped; and the payload's decoded length.
pub open spec fn data_url_fields(g: Seq<Option<Seq<char>>>) -> (Seq<char>, Seq<char>, Seq<char>, nat) {
    let data = without_whitespace(group_text(g, 3));
    (lowercase_text(group_text(g, 1)), group_text(g, 2), data, decoded_len_spec(data))
}

/// Whether `d` holds the fields `f`.
pub open spec fn data_url_is(d: DataUrl, f: (Seq<char>, Seq<char>, Seq<char>, nat)) -> bool {
    d.mime_type@ == f.0 && d.charset@ == f.1 && d.data@ == f.2 && d.bytes == f.3
}

fn group_or_empty(groups: &Vec<Option<String>>, i: usize) -> (r: String)
    ensures
        r@ == group_text(Seq::new(groups@.len(), |j: int| opt_seq(groups@[j])), i as int),
{
    if i < groups.len() {
        match &groups[i] {
            Some(s) => s.clone(),
            None => String::new(),
        }
    } else {
        String::new()
    }
}

/// Parse a base64 `data:` URL. Only the base64 form is recognized; a pattern
/// that fails to compile answers `None`, which refuses the attachment.
pub fn parse_data_url(value: &str) -> (r: Option<DataUrl>)
    ensures
        match data_url_spec(value@) {
            Some(f) => r matches Some(d) && data_url_is(d, f),
            None => r is None,
        },
{
    let groups = match captures(DATA_URL_PATTERN, value) {
        Some(groups) => groups,
        None => return None,
    };
    let ghost g = regex_captures(DATA_URL_PATTERN@, value@)->0;
    proof {
        assert(Seq::new(groups@.len(), |j: int| opt_seq(groups@[j])) =~= g);
    }
    Some(data_url_from_groups(&groups))
}

/// A `data:` URL from the groups its pattern captured.
pub fn data_url_from_groups(groups: &Vec<Option<String>>) -> (r: DataUrl)
    ensures
        data_url_is(r, data_url_fields(Seq::new(groups@.len(), |j: int| opt_seq(groups@[j])))),
{
    let ghost g = Seq::new(groups@.len(), |j: int| opt_seq(groups@[j]));
    let raw = group_or_empty(groups, 3);
    let raw_chars = chars_of(raw.as_str());
    let data_chars = strip_whitespace(&raw_chars);
    let data = string_from_chars(&data_chars);
    let mime = group_or_empty(groups, 1);
    let charset = group_or_empty(groups, 2);
    let bytes = decoded_base64_bytes(data.as_str());
    proof {
        assert(without_whitespace(without_whitespace(group_text(g, 3))) == without_whitespace(group_text(g, 3))) by {
            lemma_without_whitespace_idempotent(group_text(g, 3));
        }
    }
    DataUrl { mime_type: to_lowercase(mime.as_str()), charset, data, bytes }
}

proof fn lemma_without_whitespace_idempotent(s: Seq<char>)
    ensures
        without_whitespace(without_whitespace(s)) == without_whitespace(s),
    decreases s.len(),
{
    if s.len() > 0 {
        lemma_without_whitespace_idempotent(s.drop_last());
        let r = without_whitespace(s.drop_last());
        if !is_rust_whitespace(s.last()) {
            assert(r.push(s.last()).drop_last() =~= r);
        }
    }
}

/// The bytes an attachment counts against the turn's budget: the decoded
/// length of a `data:` URL, zero otherwise (the gateway never fetches a
/// remote URL).
pub open spec fn part_bytes_spec(p: InputPartView) -> nat {
    match data_url_spec(p.url()) {
        Some(f) => f.3,
        None => 0,
    }
}

/// The bytes an attachment counts against the turn's budget.
pub fn part_bytes(part: &InputPart) -> (r: usize)
    ensures
        r == part_bytes_spec(part.view()),
{
    match parse_data_url(part.url()) {
        Some(data) => data.bytes,
        None => 0,
    }
}

/// A free-text field: NULs dropped, then bounded to `max` UTF-16 units.
pub open spec fn clean_text_spec(value: Seq<char>, max: nat) -> Seq<char> {
    take_utf16(without_nul(value), max)
}

/// A free-text field: NULs dropped, then bounded to `max` UTF-16 units.
pub fn clean_text(value: &str, max: usize) -> (r: String)
    ensures
        r@ == clean_text_spec(value@, max as nat),
{
    let chars = chars_of(value);
    let stripped = strip_nul(&chars);
    let bounded = bounded_utf16_chars(&stripped, max);
    string_from_chars(&bounded)
}

/// `\r`, `\n` and `\t` each become a space.
pub open spec fn blank_controls(s: Seq<char>) -> Seq<char> {
    Seq::new(s.len(), |i: int| if s[i] == '\r' || s[i] == '\n' || s[i] == '\t' { ' ' } else { s[i] })
}

/// A filename: cleaned and bounded, line breaks and tabs blanked, trimmed.
pub open spec fn clean_filename_spec(value: Seq<char>) -> Seq<char> {
    trim_seq(blank_controls(clean_text_spec(value, MAX_FILENAME_CHARS as nat)))
}

/// A filename: cleaned and bounded, line breaks and tabs blanked, trimmed.
pub fn clean_filename(value: &str) -> (r: String)
    ensures
        r@ == clean_filename_spec(value@),
{
    let bounded = clean_text(value, MAX_FILENAME_CHARS);
    let chars = chars_of(bounded.as_str());
    let mut out: Vec<char> = Vec::new();
    let mut i: usize = 0;
    while i < chars.len()
        invariant
            i <= chars@.len(),
            out@ == blank_controls(chars@).take(i as int),
        decreases chars.len() - i,
    {
        let c = chars[i];
        out.push(if c == '\r' || c == '\n' || c == '\t' { ' ' } else { c });
        i = i + 1;
        assert(out@ =~= blank_controls(chars@).take(i as int));
    }
    assert(blank_controls(chars@).take(chars@.len() as int) =~= blank_controls(chars@));
    let collapsed = string_from_chars(&out);
    crate::text::trimmed(collapsed.as_str())
}

/// A source, cleaned: the anchor text bounded (and dropped when empty), the
/// path bounded and trimmed (and dropped when empty).
pub open spec fn normalize_source_spec(s: PartSourceView) -> PartSourceView {
    let text = match s.text {
        Some(t) => {
            let v = clean_text_spec(t.value, MAX_SOURCE_CHARS as nat);
            if v.len() > 0 {
                Some(SourceTextView { value: v, start: t.start, end: t.end })
            } else {
                None
            }
        },
        None => None,
    };
    let path = trim_seq(clean_text_spec(
        match s.path {
            Some(p) => p,
            None => Seq::empty(),
        },
        MAX_SOURCE_CHARS as nat,
    ));
    PartSourceView { kind: s.kind, path: if path.len() > 0 { Some(path) } else { None }, text }
}

/// Clean a source.
pub fn normalize_source(source: &PartSource) -> (r: PartSource)
    ensures
        r.view() == normalize_source_spec(source.view()),
{
    let text = match &source.text {
        Some(t) => {
            let value = clean_text(t.value.as_str(), MAX_SOURCE_CHARS);
            if value.as_str().unicode_len() > 0 {
                Some(SourceText { value, start: t.start, end: t.end })
            } else {
                None
            }
        },
        None => None,
    };
    let raw_path = match &source.path {
        Some(p) => clean_text(p.as_str(), MAX_SOURCE_CHARS),
        None => clean_text("", MAX_SOURCE_CHARS),
    };
    proof {
        reveal_strlit("");
    }
    let path = crate::text::trimmed(raw_path.as_str());
    let path = if path.as_str().unicode_len() > 0 { Some(path) } else { None };
    PartSource { kind: source.kind, path, text }
}

/// Why a submission was refused.
#[derive(Clone, Debug, PartialEq, Eq)]
pub enum InputRejection {
    /// An attachment's MIME type is missing or not `type/subtype`.
    MissingMime,
    /// An attachment's URL is missing.
    MissingUrl,
    /// An attachment's URL does not parse.
    InvalidUrl,
    /// An attachment's URL scheme is not allowed; the scheme with its colon.
    UnsupportedProtocol(String),
    /// A `data:` URL that is not base64.
    DataUrlNeedsBase64,
    /// The declared MIME type disagrees with the `data:` URL's.
    MimeMismatch {
        /// The declared type.
        declared: String,
        /// The `data:` URL's type.
        actual: String,
    },
    /// One attachment is over the limit, in MiB.
    FileTooLarge(String),
    /// Too many parts; the limit.
    TooManyParts(String),
    /// The attachments together are over the limit, in MiB.
    TotalTooLarge(String),
    /// Nothing survived.
    Empty,
}

/// A rejected submission. The message a client is shown is the catalog's
/// sentence for the rejection.
#[derive(Clone, Debug, PartialEq, Eq)]
pub struct InputError {
    /// Why.
    pub rejection: InputRejection,
}

/// A rejection, as sequences.
pub enum RejectionView {
    /// See [`InputRejection::MissingMime`].
    MissingMime,
    /// See [`InputRejection::MissingUrl`].
    MissingUrl,
    /// See [`InputRejection::InvalidUrl`].
    InvalidUrl,
    /// See [`InputRejection::UnsupportedProtocol`].
    UnsupportedProtocol(Seq<char>),
    /// See [`InputRejection::DataUrlNeedsBase64`].
    DataUrlNeedsBase64,
    /// See [`InputRejection::MimeMismatch`].
    MimeMismatch(Seq<char>, Seq<char>),
    /// See [`InputRejection::FileTooLarge`].
    FileTooLarge(Seq<char>),
    /// See [`InputRejection::TooManyParts`].
    TooManyParts(Seq<char>),
    /// See [`InputRejection::TotalTooLarge`].
    TotalTooLarge(Seq<char>),
    /// See [`InputRejection::Empty`].
    Empty,
}

impl InputError {
    /// The rejection, as sequences.
    pub open spec fn view(&self) -> RejectionView {
        match self.rejection {
            InputRejection::MissingMime => RejectionView::MissingMime,
            InputRejection::MissingUrl => RejectionView::MissingUrl,
            InputRejection::InvalidUrl => RejectionView::InvalidUrl,
            InputRejection::UnsupportedProtocol(p) => RejectionView::UnsupportedProtocol(p@),
            InputRejection::DataUrlNeedsBase64 => RejectionView::DataUrlNeedsBase64,
            InputRejection::MimeMismatch { declared, actual } => RejectionView::MimeMismatch(declared@, actual@),
            InputRejection::FileTooLarge(l) => RejectionView::FileTooLarge(l@),
            InputRejection::TooManyParts(l) => RejectionView::TooManyParts(l@),
            InputRejection::TotalTooLarge(l) => RejectionView::TotalTooLarge(l@),
            InputRejection::Empty => RejectionView::Empty,
        }
    }
}

/// What `url::Url::parse` makes of a URL's scheme: `None` when the URL does
/// not parse.
pub uninterp spec fn url_scheme(url: Seq<char>) -> Option<Seq<char>>;

/// The scheme of `url`, or `None` when it does not parse.
///
/// Trusted: calls `url::Url::parse` and, on success, `Url::scheme`. The
/// contract claims only that the answer is a function of the string, named
/// [`url_scheme`]; the URL grammar is the crate's.
#[verifier::external_body]
fn parse_url_scheme(url: &str) -> (r: Option<String>)
    ensures
        opt_seq(r) == url_scheme(url@),
{
    match url::Url::parse(url) {
        Ok(parsed) => Some(parsed.scheme().to_owned()),
        Err(_) => None,
    }
}

/// `bytes` in whole MiB, in decimal.
pub open spec fn megabytes_spec(bytes: nat) -> Seq<char> {
    decimal_seq(bytes / 1024 / 1024)
}

/// `bytes` in whole MiB, in decimal.
pub fn megabytes(bytes: usize) -> (r: String)
    ensures
        r@ == megabytes_spec(bytes as nat),
{
    let mut out: Vec<char> = Vec::new();
    push_decimal(&mut out, (bytes / 1024 / 1024) as u64);
    string_from_chars(&out)
}

/// Whether `s` holds `c`.
pub open spec fn has_char(s: Seq<char>, c: char) -> bool {
    exists|i: int| 0 <= i < s.len() && s[i] == c
}

fn contains_char(s: &str, c: char) -> (r: bool)
    ensures
        r == has_char(s@, c),
{
    let chars = chars_of(s);
    let mut i: usize = 0;
    while i < chars.len()
        invariant
            i <= chars@.len(),
            chars@ == s@,
            forall|j: int| 0 <= j < i ==> chars@[j] != c,
        decreases chars.len() - i,
    {
        if chars[i] == c {
            return true;
        }
        i = i + 1;
    }
    false
}

/// The declared MIME type of a file part, as validated: cleaned, bounded,
/// trimmed, lowercased.
pub open spec fn clean_mime(p: InputPartView) -> Seq<char> {
    lowercase_text(trim_seq(clean_text_spec(p.mime(), MAX_MIME_CHARS as nat)))
}

/// The content URL of a file part, as validated: cleaned, bounded, trimmed.
pub open spec fn clean_url(p: InputPartView) -> Seq<char> {
    trim_seq(clean_text_spec(p.url(), MAX_URL_CHARS as nat))
}

/// One attachment's validation, check for check and in order: a MIME type
/// shaped `type/subtype`, a URL, a URL that parses, an allowed scheme, a
/// base64 `data:` URL, a declared MIME type that agrees with the `data:`
/// one, and a size within [`MAX_INPUT_FILE_BYTES`].
pub open spec fn normalize_file_spec(p: InputPartView) -> Result<InputPartView, RejectionView> {
    let mime = clean_mime(p);
    let url = clean_url(p);
    if mime.len() == 0 || !has_char(mime, '/') {
        Err(RejectionView::MissingMime)
    } else if url.len() == 0 {
        Err(RejectionView::MissingUrl)
    } else {
        match url_scheme(url) {
            None => Err(RejectionView::InvalidUrl),
            Some(raw_scheme) => {
                let scheme = lowercase_text(raw_scheme);
                if scheme != "data"@ && scheme != "http"@ && scheme != "https"@ {
                    Err(RejectionView::UnsupportedProtocol(scheme.push(':')))
                } else {
                    let data = if scheme == "data"@ { data_url_spec(url) } else { None };
                    let filename = clean_filename_spec(
                        match p.filename() {
                            Some(f) => f,
                            None => Seq::empty(),
                        },
                    );
                    let accepted = InputPartView::File {
                        mime,
                        filename: if filename.len() > 0 { Some(filename) } else { None },
                        url,
                        source: match p.source() {
                            Some(s) => Some(normalize_source_spec(s)),
                            None => None,
                        },
                        input_ref: None,
                    };
                    match data {
                        None => if scheme == "data"@ {
                            Err(RejectionView::DataUrlNeedsBase64)
                        } else {
                            Ok(accepted)
                        },
                        Some(f) => if f.0 != mime {
                            Err(RejectionView::MimeMismatch(mime, f.0))
                        } else if f.3 > MAX_INPUT_FILE_BYTES {
                            Err(RejectionView::FileTooLarge(megabytes_spec(MAX_INPUT_FILE_BYTES as nat)))
                        } else {
                            Ok(accepted)
                        },
                    }
                }
            },
        }
    }
}

/// The result of a validation, as sequences.
pub open spec fn part_result_view(r: Result<InputPart, InputError>) -> Result<InputPartView, RejectionView> {
    match r {
        Ok(p) => Ok(p.view()),
        Err(e) => Err(e.view()),
    }
}

/// Validate one attachment.
pub fn normalize_file_part(part: &InputPart) -> (r: Result<InputPart, InputError>)
    ensures
        part_result_view(r) == normalize_file_spec(part.view()),
{
    proof {
        reveal_strlit("");
    }
    let cleaned = clean_text(part.mime(), MAX_MIME_CHARS);
    let mime = to_lowercase(trim(cleaned.as_str()));
    if mime.as_str().unicode_len() == 0 || !contains_char(mime.as_str(), '/') {
        return Err(InputError { rejection: InputRejection::MissingMime });
    }
    let raw_url = clean_text(part.url(), MAX_URL_CHARS);
    let url = crate::text::trimmed(raw_url.as_str());
    if url.as_str().unicode_len() == 0 {
        return Err(InputError { rejection: InputRejection::MissingUrl });
    }
    let raw_scheme = match parse_url_scheme(url.as_str()) {
        Some(s) => s,
        None => return Err(InputError { rejection: InputRejection::InvalidUrl }),
    };
    let scheme = to_lowercase(raw_scheme.as_str());
    proof {
        reveal_strlit("data");
        reveal_strlit("http");
        reveal_strlit("https");
    }
    let is_data = crate::chars::str_eq(scheme.as_str(), "data");
    if !is_data && !crate::chars::str_eq(scheme.as_str(), "http") && !crate::chars::str_eq(scheme.as_str(), "https") {
        let mut protocol = chars_of(scheme.as_str());
        protocol.push(':');
        return Err(InputError { rejection: InputRejection::UnsupportedProtocol(string_from_chars(&protocol)) });
    }
    let data_url = if is_data { parse_data_url(url.as_str()) } else { None };
    if is_data && data_url.is_none() {
        return Err(InputError { rejection: InputRejection::DataUrlNeedsBase64 });
    }
    match &data_url {
        Some(data) => {
            if !crate::chars::str_eq(data.mime_type.as_str(), mime.as_str()) {
                return Err(InputError {
                    rejection: InputRejection::MimeMismatch { declared: mime, actual: data.mime_type.clone() },
                });
            }
            if data.bytes > MAX_INPUT_FILE_BYTES {
                return Err(InputError { rejection: InputRejection::FileTooLarge(megabytes(MAX_INPUT_FILE_BYTES)) });
            }
        },
        None => {},
    }
    let filename = match part.filename() {
        Some(f) => clean_filename(f),
        None => clean_filename(""),
    };
    let filename = if filename.as_str().unicode_len() > 0 { Some(filename) } else { None };
    let source = match part.source() {
        Some(s) => Some(normalize_source(s)),
        None => None,
    };
    Ok(InputPart::File { mime, filename, url, source, meta: None })
}

} // verus!
