//! The model-visible projection of one turn's input, and the other views of
//! a turn a client or a record needs.

use vstd::prelude::*;
use crate::announcement::format::join_lines;
use crate::chars::{chars_of, push_all, push_str, string_from_chars};
use crate::input::anchors::{input_part_label, label_spec, join_with};
use crate::input::parts::{
    data_url_spec, parse_data_url, part_views, InputPart, InputPartView, SourceKind,
};
use crate::input::turn::{files_of, input_file_parts, input_text, input_text_spec};

verus! {

/// A lower-case hexadecimal digit for `n` in `0..16`.
pub open spec fn hex_digit(n: int) -> char {
    if n < 10 {
        (n + 48) as char
    } else {
        (n + 87) as char
    }
}

/// How a JSON string literal writes `c`: the quote and the backslash behind
/// a backslash; backspace, tab, line feed, form feed and carriage return as
/// `\b \t \n \f \r`; the other control characters below U+0020 as
/// `\u00` and two lower-case hex digits; every other character as itself.
pub open spec fn json_escaped_char(c: char) -> Seq<char> {
    if c == '"' {
        seq!['\\', '"']
    } else if c == '\\' {
        seq!['\\', '\\']
    } else if c == '\u{8}' {
        seq!['\\', 'b']
    } else if c == '\t' {
        seq!['\\', 't']
    } else if c == '\n' {
        seq!['\\', 'n']
    } else if c == '\u{c}' {
        seq!['\\', 'f']
    } else if c == '\r' {
        seq!['\\', 'r']
    } else if (c as int) < 32 {
        seq!['\\', 'u', '0', '0', hex_digit((c as int) / 16), hex_digit((c as int) % 16)]
    } else {
        seq![c]
    }
}

/// Each character of `s` written as a JSON string literal writes it.
pub open spec fn json_escaped(s: Seq<char>) -> Seq<char>
    decreases s.len(),
{
    if s.len() == 0 {
        Seq::empty()
    } else {
        json_escaped(s.drop_last()) + json_escaped_char(s.last())
    }
}

/// The JSON string literal for `s`: its escaped characters between quotes.
pub open spec fn json_quoted(s: Seq<char>) -> Seq<char> {
    seq!['"'] + json_escaped(s) + seq!['"']
}

/// `s` as a JSON string literal.
///
/// Trusted: wraps `serde_json::to_string` on a `&str`, whose string
/// serializer writes a quote, each character through its escape table, and
/// a quote: the contract claims exactly that, as [`json_quoted`].
/// Serializing a string into memory cannot fail; the error arm answers an
/// empty string.
#[verifier::external_body]
fn json_quote(s: &str) -> (r: String)
    ensures
        r@ == json_quoted(s@),
{
    match serde_json::to_string(s) {
        Ok(text) => text,
        Err(_) => String::new(),
    }
}

/// `&`, `<` and `>` written as `\u0026`, `\u003c` and `\u003e`, so nothing
/// in the metadata can close the `<input_parts>` tag or forge a block.
pub open spec fn escape_markup(s: Seq<char>) -> Seq<char>
    decreases s.len(),
{
    if s.len() == 0 {
        Seq::empty()
    } else {
        let c = s.last();
        escape_markup(s.drop_last()) + if c == '&' {
            "\\u0026"@
        } else if c == '<' {
            "\\u003c"@
        } else if c == '>' {
            "\\u003e"@
        } else {
            seq![c]
        }
    }
}

fn escape_markup_exec(s: &[char]) -> (r: Vec<char>)
    ensures
        r@ == escape_markup(s@),
{
    let mut out: Vec<char> = Vec::new();
    let mut i: usize = 0;
    while i < s.len()
        invariant
            i <= s@.len(),
            out@ == escape_markup(s@.take(i as int)),
        decreases s.len() - i,
    {
        assert(s@.take(i + 1).drop_last() =~= s@.take(i as int));
        assert(s@.take(i + 1).last() == s@[i as int]);
        let c = s[i];
        if c == '&' {
            push_str(&mut out, "\\u0026");
        } else if c == '<' {
            push_str(&mut out, "\\u003c");
        } else if c == '>' {
            push_str(&mut out, "\\u003e");
        } else {
            out.push(c);
        }
        i = i + 1;
    }
    assert(s@.take(s@.len() as int) =~= s@);
    out
}

/// `"key":value`, the key quoted as serde_json quotes it.
pub open spec fn member(key: Seq<char>, value: Seq<char>) -> Seq<char> {
    json_quoted(key) + seq![':'] + value
}

/// The members of the metadata object for the attachment at `index`, in
/// the lexicographic key order serde_json's map keeps: `filename` (when
/// there is one), `id` (when the attachment has a reference), `mime`,
/// `source` (its label, and its kind, a resource by default) and `type`.
pub open spec fn entry_members(p: InputPartView, index: nat) -> Seq<Seq<char>> {
    (match p.filename() {
        Some(f) => seq![member("filename"@, json_quoted(f))],
        None => Seq::empty(),
    }) + (if p.reference().len() > 0 {
        seq![member("id"@, json_quoted(p.reference()))]
    } else {
        Seq::empty()
    }) + seq![
        member("mime"@, json_quoted(p.mime())),
        member("source"@, source_json(p, index)),
        member("type"@, json_quoted("file"@)),
    ]
}

/// The `source` object of the metadata: the label, then the kind.
pub open spec fn source_json(p: InputPartView, index: nat) -> Seq<char> {
    seq!['{'] + join_with(seq![
        member("text"@, seq!['{'] + member("value"@, json_quoted(label_spec(p, index))) + seq!['}']),
        member("type"@, json_quoted(match p.source() {
            Some(s) => s.kind.wire(),
            None => SourceKind::Resource.wire(),
        })),
    ], ',') + seq!['}']
}

/// The metadata object for the attachment at `index`.
pub open spec fn entry_json(p: InputPartView, index: nat) -> Seq<char> {
    seq!['{'] + join_with(entry_members(p, index), ',') + seq!['}']
}

/// The attachments' metadata, a JSON array, escaped for embedding.
pub open spec fn metadata_spec(files: Seq<InputPartView>) -> Seq<char> {
    escape_markup(seq!['['] + join_with(Seq::new(files.len(), |i: int| entry_json(files[i], i as nat)), ',') + seq![']'])
}

/// The model-visible projection of one turn's input: with no attachments,
/// just the text; otherwise the text (or, when there is none, the catalog
/// sentence for whether voice accompanied the turn), a blank line, and the
/// attachments' metadata inside `<input_parts>`.
pub open spec fn projection_spec(views: Seq<InputPartView>, accompanies_voice: bool, with_voice: Seq<char>, without_text: Seq<char>) -> Seq<char> {
    let text = input_text_spec(views);
    let files = files_of(views);
    if files.len() == 0 {
        text
    } else {
        let head = if text.len() > 0 {
            text
        } else if accompanies_voice {
            with_voice
        } else {
            without_text
        };
        join_lines(seq![head, Seq::empty(), "<input_parts>"@, metadata_spec(files), "</input_parts>"@])
    }
}

fn push_member(out: &mut Vec<char>, key: &str, value: &[char])
    ensures
        final(out)@ == old(out)@ + member(key@, value@),
{
    let quoted = json_quote(key);
    push_str(out, quoted.as_str());
    out.push(':');
    push_all(out, value);
    assert(final(out)@ =~= old(out)@ + member(key@, value@));
}

fn quoted_chars(s: &str) -> (r: Vec<char>)
    ensures
        r@ == json_quoted(s@),
{
    let q = json_quote(s);
    chars_of(q.as_str())
}

fn member_exec(key: &str, value: &[char]) -> (r: Vec<char>)
    ensures
        r@ == member(key@, value@),
{
    let mut m: Vec<char> = Vec::new();
    push_member(&mut m, key, value);
    assert(m@ =~= member(key@, value@));
    m
}

/// The views of a vector of character vectors.
pub open spec fn char_views(v: Seq<Vec<char>>) -> Seq<Seq<char>> {
    Seq::new(v.len(), |i: int| v[i]@)
}

fn join_chars(pieces: &Vec<Vec<char>>, sep: char) -> (r: Vec<char>)
    ensures
        r@ == join_with(char_views(pieces@), sep),
{
    let mut out: Vec<char> = Vec::new();
    let mut i: usize = 0;
    assert(char_views(pieces@).take(0) =~= Seq::<Seq<char>>::empty());
    while i < pieces.len()
        invariant
            i <= pieces@.len(),
            out@ == join_with(char_views(pieces@).take(i as int), sep),
        decreases pieces.len() - i,
    {
        let ghost pre = char_views(pieces@).take(i as int);
        let ghost next = char_views(pieces@).take(i + 1);
        assert(next.drop_last() =~= pre);
        assert(next.last() == pieces@[i as int]@);
        if i > 0 {
            out.push(sep);
        } else {
            assert(join_with(next, sep) == pieces@[0]@);
        }
        push_all(&mut out, pieces[i].as_slice());
        assert(out@ =~= join_with(next, sep));
        i = i + 1;
    }
    assert(char_views(pieces@).take(pieces@.len() as int) =~= char_views(pieces@));
    out
}

fn source_json_exec(part: &InputPart, index: usize) -> (r: Vec<char>)
    requires
        index < usize::MAX,
    ensures
        r@ == source_json(part.view(), index as nat),
{
    let label = input_part_label(part, index);
    let lv = quoted_chars(label.as_str());
    let mut inner: Vec<char> = Vec::new();
    inner.push('{');
    let value = member_exec("value", &lv);
    push_all(&mut inner, &value);
    inner.push('}');
    let text_member = member_exec("text", &inner);
    let kind = match part.source() {
        Some(s) => s.kind,
        None => SourceKind::Resource,
    };
    let kv = quoted_chars(kind.as_str());
    let type_member = member_exec("type", &kv);
    let mut pieces: Vec<Vec<char>> = Vec::new();
    pieces.push(text_member);
    pieces.push(type_member);
    let joined = join_chars(&pieces, ',');
    let mut source: Vec<char> = Vec::new();
    source.push('{');
    push_all(&mut source, &joined);
    source.push('}');
    proof {
        let ghost p = part.view();
        assert(inner@ =~= seq!['{'] + member("value"@, json_quoted(label_spec(p, index as nat))) + seq!['}']);
        assert(char_views(pieces@) =~= seq![
            member("text"@, seq!['{'] + member("value"@, json_quoted(label_spec(p, index as nat))) + seq!['}']),
            member("type"@, json_quoted(match p.source() {
                Some(s) => s.kind.wire(),
                None => SourceKind::Resource.wire(),
            })),
        ]);
        assert(source@ =~= source_json(p, index as nat));
    }
    source
}

fn entry_json_exec(part: &InputPart, index: usize) -> (r: Vec<char>)
    requires
        index < usize::MAX,
    ensures
        r@ == entry_json(part.view(), index as nat),
{
    let ghost p = part.view();
    let mut members: Vec<Vec<char>> = Vec::new();
    let ghost mut head: Seq<Seq<char>> = Seq::empty();
    match part.filename() {
        Some(f) => {
            let v = quoted_chars(f);
            members.push(member_exec("filename", &v));
            proof {
                head = seq![member("filename"@, json_quoted(f@))];
            }
        },
        None => {},
    }
    assert(char_views(members@) =~= head);
    assert(head =~= (match p.filename() {
        Some(f) => seq![member("filename"@, json_quoted(f))],
        None => Seq::<Seq<char>>::empty(),
    }));
    let reference = part.reference();
    let ghost mut mid: Seq<Seq<char>> = Seq::empty();
    if reference.unicode_len() > 0 {
        let v = quoted_chars(reference);
        members.push(member_exec("id", &v));
        proof {
            mid = seq![member("id"@, json_quoted(reference@))];
        }
    }
    assert(char_views(members@) =~= head + mid);
    let v = quoted_chars(part.mime());
    members.push(member_exec("mime", &v));
    let source = source_json_exec(part, index);
    members.push(member_exec("source", &source));
    let fv = quoted_chars("file");
    members.push(member_exec("type", &fv));
    assert(char_views(members@) =~= entry_members(p, index as nat));
    let body = join_chars(&members, ',');
    let mut out: Vec<char> = Vec::new();
    out.push('{');
    push_all(&mut out, &body);
    out.push('}');
    assert(out@ =~= entry_json(p, index as nat));
    out
}

/// The model-visible projection of one turn's input. `with_voice` and
/// `without_text` are the catalog's sentences for a turn with attachments
/// and no text, with and without accompanying voice.
pub fn frontend_input_projection(parts: &[InputPart], accompanies_voice: bool, with_voice: &str, without_text: &str) -> (r: String)
    requires
        parts@.len() < usize::MAX,
    ensures
        r@ == projection_spec(part_views(parts@), accompanies_voice, with_voice@, without_text@),
{
    let text = input_text(parts);
    let files = input_file_parts(parts);
    if files.len() == 0 {
        return text;
    }
    let ghost fv = part_views(files@);
    proof {
        crate::input::anchors::lemma_files_of_len_pub(part_views(parts@));
    }
    let mut array: Vec<char> = Vec::new();
    let ghost mut entries: Seq<Seq<char>> = Seq::empty();
    let mut i: usize = 0;
    while i < files.len()
        invariant
            i <= files@.len(),
            files@.len() < usize::MAX,
            fv == part_views(files@),
            entries == Seq::new(i as nat, |j: int| entry_json(fv[j], j as nat)),
            array@ == join_with(entries, ','),
        decreases files.len() - i,
    {
        let entry = entry_json_exec(&files[i], i);
        if i > 0 {
            array.push(',');
        }
        push_all(&mut array, &entry);
        proof {
            let next = Seq::new((i + 1) as nat, |j: int| entry_json(fv[j], j as nat));
            assert(next.drop_last() =~= entries);
            if i == 0 {
                assert(array@ =~= entry@);
            }
            entries = next;
        }
        i = i + 1;
    }
    let mut wrapped: Vec<char> = Vec::new();
    wrapped.push('[');
    push_all(&mut wrapped, &array);
    wrapped.push(']');
    let metadata = escape_markup_exec(&wrapped);
    proof {
        assert(wrapped@ =~= seq!['['] + join_with(entries, ',') + seq![']']);
    }
    let head: &str = if text.as_str().unicode_len() > 0 {
        text.as_str()
    } else if accompanies_voice {
        with_voice
    } else {
        without_text
    };
    let mut out: Vec<char> = Vec::new();
    push_str(&mut out, head);
    out.push('\n');
    out.push('\n');
    push_str(&mut out, "<input_parts>");
    out.push('\n');
    push_all(&mut out, &metadata);
    out.push('\n');
    push_str(&mut out, "</input_parts>");
    proof {
        let l1 = seq![head@];
        let l2 = l1.push(Seq::<char>::empty());
        let l3 = l2.push("<input_parts>"@);
        let l4 = l3.push(metadata@);
        let l5 = l4.push("</input_parts>"@);
        assert(l2.drop_last() =~= l1);
        assert(l3.drop_last() =~= l2);
        assert(l4.drop_last() =~= l3);
        assert(l5.drop_last() =~= l4);
        assert(join_lines(l1) == head@);
        assert(join_lines(l2) == head@ + seq!['\n'] + Seq::<char>::empty());
        assert(join_lines(l3) == join_lines(l2) + seq!['\n'] + "<input_parts>"@);
        assert(join_lines(l4) == join_lines(l3) + seq!['\n'] + metadata@);
        assert(join_lines(l5) == join_lines(l4) + seq!['\n'] + "</input_parts>"@);
        assert(out@ =~= join_lines(l5));
        assert(l5 =~= seq![head@, Seq::empty(), "<input_parts>"@, metadata@, "</input_parts>"@]);
    }
    string_from_chars(&out)
}

/// What a client shows for a turn: its text, or when it has none, the
/// attachments' labels separated by spaces.
pub open spec fn display_text_spec(views: Seq<InputPartView>) -> Seq<char> {
    let text = input_text_spec(views);
    if text.len() > 0 {
        text
    } else {
        let files = files_of(views);
        join_with(Seq::new(files.len(), |i: int| label_spec(files[i], i as nat)), ' ')
    }
}

/// What a client shows for a turn with no text of its own.
pub fn display_input_text(parts: &[InputPart]) -> (r: String)
    requires
        parts@.len() < usize::MAX,
    ensures
        r@ == display_text_spec(part_views(parts@)),
{
    let text = input_text(parts);
    if text.as_str().unicode_len() > 0 {
        return text;
    }
    let files = input_file_parts(parts);
    let ghost fv = part_views(files@);
    proof {
        crate::input::anchors::lemma_files_of_len_pub(part_views(parts@));
    }
    let mut out: Vec<char> = Vec::new();
    let ghost mut labels: Seq<Seq<char>> = Seq::empty();
    let mut i: usize = 0;
    while i < files.len()
        invariant
            i <= files@.len(),
            files@.len() < usize::MAX,
            fv == part_views(files@),
            labels == Seq::new(i as nat, |j: int| label_spec(fv[j], j as nat)),
            out@ == join_with(labels, ' '),
        decreases files.len() - i,
    {
        let label = input_part_label(&files[i], i);
        if i > 0 {
            out.push(' ');
        }
        push_str(&mut out, label.as_str());
        proof {
            let next = Seq::new((i + 1) as nat, |j: int| label_spec(fv[j], j as nat));
            assert(next.drop_last() =~= labels);
            if i == 0 {
                assert(out@ =~= label@);
            }
            labels = next;
        }
        i = i + 1;
    }
    string_from_chars(&out)
}

/// One attachment's metadata, as a conversation record stores it.
#[derive(Clone, Debug, PartialEq, Eq)]
pub struct AttachmentMetadata {
    /// The rendered anchor.
    pub label: String,
    /// The original filename.
    pub name: Option<String>,
    /// The MIME type.
    pub mime_type: String,
    /// The decoded size, or `None` for a remote URL.
    pub bytes: Option<usize>,
}

/// Whether `m` describes the attachment `p` at `index`.
pub open spec fn metadata_of(m: AttachmentMetadata, p: InputPartView, index: nat) -> bool {
    &&& m.label@ == label_spec(p, index)
    &&& crate::input::parts::opt_seq(m.name) == p.filename()
    &&& m.mime_type@ == p.mime()
    &&& m.bytes == match data_url_spec(p.url()) {
        Some(f) => Some(f.3 as usize),
        None => None,
    }
}

/// Every attachment's metadata, in order.
pub fn input_attachment_metadata(parts: &[InputPart]) -> (r: Vec<AttachmentMetadata>)
    requires
        parts@.len() < usize::MAX,
    ensures
        r@.len() == files_of(part_views(parts@)).len(),
        forall|i: int| 0 <= i < r@.len() ==> metadata_of(#[trigger] r@[i], files_of(part_views(parts@))[i], i as nat),
{
    let files = input_file_parts(parts);
    let ghost fv = part_views(files@);
    proof {
        crate::input::anchors::lemma_files_of_len_pub(part_views(parts@));
    }
    let mut out: Vec<AttachmentMetadata> = Vec::new();
    let mut i: usize = 0;
    while i < files.len()
        invariant
            i <= files@.len(),
            files@.len() < usize::MAX,
            fv == part_views(files@),
            out@.len() == i,
            forall|j: int| 0 <= j < i ==> metadata_of(#[trigger] out@[j], fv[j], j as nat),
        decreases files.len() - i,
    {
        let part = &files[i];
        assert(fv[i as int] == part.view());
        let bytes = match parse_data_url(part.url()) {
            Some(data) => Some(data.bytes),
            None => None,
        };
        out.push(AttachmentMetadata {
            label: input_part_label(part, i),
            name: match part.filename() {
                Some(f) => Some(f.to_owned()),
                None => None,
            },
            mime_type: part.mime().to_owned(),
            bytes,
        });
        i = i + 1;
    }
    out
}

} // verus!
