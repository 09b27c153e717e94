//! Attachment anchors: the textual reference each attachment is bound to in
//! the turn's text, so a client can highlight which words a file is attached
//! to and a multi-attachment reference can be replayed.

use vstd::prelude::*;
use crate::chars::{chars_eq, chars_of, decimal_seq, lemma_decimal_injective, push_decimal, push_str, string_from_chars};
use crate::input::parts::{byte_len, lemma_utf16_within_utf8, part_views, InputPart, InputPartView, MAX_LABEL_CHARS, MAX_SOURCE_CHARS};
use crate::input::parts::{InputPart as Part, PartSource, PartSourceView, SourceKind, SourceText, SourceTextView};
use crate::input::turn::{clone_part, files_of, input_file_parts, input_text, input_text_spec};
use crate::text::{bounded_utf16, take_utf16, trim, trim_seq, utf16_len, utf16_units};

verus! {

/// Whether `s` starts with `p`.
pub open spec fn starts_with(s: Seq<char>, p: Seq<char>) -> bool {
    p.len() <= s.len() && s.take(p.len() as int) == p
}

pub(crate) fn has_prefix(s: &str, p: &str) -> (r: bool)
    ensures
        r == starts_with(s@, p@),
{
    let a = chars_of(s);
    let b = chars_of(p);
    if b.len() > a.len() {
        return false;
    }
    let mut i: usize = 0;
    while i < b.len()
        invariant
            i <= b@.len() <= a@.len(),
            a@ == s@,
            b@ == p@,
            forall|j: int| 0 <= j < i ==> a@[j] == b@[j],
        decreases b.len() - i,
    {
        if a[i] != b[i] {
            assert(a@.take(b@.len() as int)[i as int] != b@[i as int]);
            return false;
        }
        i = i + 1;
    }
    assert(a@.take(b@.len() as int) =~= b@);
    true
}

/// The tag `[Image N]` or `[File N]`.
pub open spec fn ordinal_tag(image: bool, n: nat) -> Seq<char> {
    (if image { "[Image "@ } else { "[File "@ }) + decimal_seq(n) + "]"@
}

fn make_tag(image: bool, n: usize) -> (r: String)
    ensures
        r@ == ordinal_tag(image, n as nat),
{
    let mut out: Vec<char> = Vec::new();
    if image {
        push_str(&mut out, "[Image ");
    } else {
        push_str(&mut out, "[File ");
    }
    push_decimal(&mut out, n as u64);
    push_str(&mut out, "]");
    string_from_chars(&out)
}

/// Whether a part is an image.
pub open spec fn is_image(p: InputPartView) -> bool {
    starts_with(p.mime(), "image/"@)
}

/// A client-supplied anchor, trimmed, or empty.
pub open spec fn supplied_anchor(p: InputPartView) -> Seq<char> {
    match p.source() {
        Some(s) => match s.text {
            Some(t) => trim_seq(t.value),
            None => Seq::empty(),
        },
        None => Seq::empty(),
    }
}

/// The natural anchor for the attachment at `index`: a client-supplied
/// anchor wins; otherwise `[Image N]` for an image, `@filename` when there is
/// a filename, and `[File N]` as the last resort.
pub open spec fn reference_spec(p: InputPartView, index: nat) -> Seq<char> {
    let supplied = supplied_anchor(p);
    if supplied.len() > 0 {
        take_utf16(supplied, MAX_SOURCE_CHARS as nat)
    } else if is_image(p) {
        ordinal_tag(true, index + 1)
    } else {
        match p.filename() {
            Some(f) => if f.len() > 0 {
                seq!['@'] + f
            } else {
                ordinal_tag(false, index + 1)
            },
            None => ordinal_tag(false, index + 1),
        }
    }
}

/// The natural anchor for one attachment.
pub fn input_part_reference(part: &InputPart, index: usize) -> (r: String)
    requires
        index < usize::MAX,
    ensures
        r@ == reference_spec(part.view(), index as nat),
{
    proof {
        reveal_strlit("");
    }
    let supplied = match part.source() {
        Some(s) => match &s.text {
            Some(t) => trim(t.value.as_str()),
            None => "",
        },
        None => "",
    };
    if supplied.unicode_len() > 0 {
        return bounded_utf16(supplied, MAX_SOURCE_CHARS);
    }
    if has_prefix(part.mime(), "image/") {
        return make_tag(true, index + 1);
    }
    match part.filename() {
        Some(f) => {
            if f.unicode_len() > 0 {
                let mut out: Vec<char> = Vec::new();
                out.push('@');
                push_str(&mut out, f);
                proof {
                    assert(out@ =~= seq!['@'] + f@);
                }
                return string_from_chars(&out);
            }
            make_tag(false, index + 1)
        },
        None => make_tag(false, index + 1),
    }
}

/// The bounded label for one attachment.
pub open spec fn label_spec(p: InputPartView, index: nat) -> Seq<char> {
    take_utf16(reference_spec(p, index), MAX_LABEL_CHARS as nat)
}

/// The bounded label for one attachment.
pub fn input_part_label(part: &InputPart, index: usize) -> (r: String)
    requires
        index < usize::MAX,
    ensures
        r@ == label_spec(part.view(), index as nat),
{
    let reference = input_part_reference(part, index);
    bounded_utf16(reference.as_str(), MAX_LABEL_CHARS)
}

/// Whether `s` holds `x`.
pub open spec fn holds(s: Seq<Seq<char>>, x: Seq<char>) -> bool {
    exists|j: int| 0 <= j < s.len() && s[j] == x
}

/// The first ordinal from `n` whose tag is not in `used`, looking at most
/// `remaining` further.
pub open spec fn free_from(used: Seq<Seq<char>>, image: bool, n: nat, remaining: nat) -> nat
    decreases remaining,
{
    if !holds(used, ordinal_tag(image, n)) || remaining == 0 {
        n
    } else {
        free_from(used, image, n + 1, (remaining - 1) as nat)
    }
}

/// The anchors of `files`, each distinct: a natural anchor already taken
/// makes way for the next free `[Image N]` / `[File N]` from the
/// attachment's own position.
pub open spec fn unique_refs(files: Seq<InputPartView>) -> Seq<Seq<char>>
    decreases files.len(),
{
    if files.len() == 0 {
        Seq::empty()
    } else {
        let used = unique_refs(files.drop_last());
        let i = (files.len() - 1) as nat;
        let p = files.last();
        let natural = reference_spec(p, i);
        if !holds(used, natural) {
            used.push(natural)
        } else {
            used.push(ordinal_tag(is_image(p), free_from(used, is_image(p), i + 1, used.len())))
        }
    }
}

proof fn lemma_unique_refs_len(files: Seq<InputPartView>)
    ensures
        unique_refs(files).len() == files.len(),
    decreases files.len(),
{
    if files.len() > 0 {
        lemma_unique_refs_len(files.drop_last());
    }
}

proof fn lemma_tag_injective(image: bool, a: nat, b: nat)
    requires
        ordinal_tag(image, a) == ordinal_tag(image, b),
    ensures
        a == b,
{
    reveal_strlit("[Image ");
    reveal_strlit("[File ");
    reveal_strlit("]");
    let p = if image { "[Image "@ } else { "[File "@ };
    let x = ordinal_tag(image, a);
    let y = ordinal_tag(image, b);
    assert(x.len() == y.len());
    assert(x.subrange(p.len() as int, x.len() - 1) =~= decimal_seq(a));
    assert(y.subrange(p.len() as int, y.len() - 1) =~= decimal_seq(b));
    lemma_decimal_injective(a, b);
}

/// Every tag from `n` on for `m` ordinals being taken needs `m` distinct
/// entries in `used`.
proof fn lemma_tags_need_room(used: Seq<Seq<char>>, image: bool, n: nat, m: nat)
    requires
        forall|k: nat| n <= k < n + m ==> holds(used, #[trigger] ordinal_tag(image, k)),
    ensures
        m <= used.len(),
{
    let tags = Set::new(|x: Seq<char>| exists|k: nat| n <= k < n + m && x == ordinal_tag(image, k));
    lemma_tag_set_len(image, n, m);
    assert(tags.subset_of(used.to_set())) by {
        assert forall|x: Seq<char>| tags.contains(x) implies used.to_set().contains(x) by {
            let k = choose|k: nat| n <= k < n + m && x == ordinal_tag(image, k);
            assert(holds(used, ordinal_tag(image, k)));
        }
    }
    vstd::set_lib::lemma_len_subset(tags, used.to_set());
    used.lemma_cardinality_of_set();
}

proof fn lemma_tag_set_len(image: bool, n: nat, m: nat)
    ensures
        Set::new(|x: Seq<char>| exists|k: nat| n <= k < n + m && x == ordinal_tag(image, k)).finite(),
        Set::new(|x: Seq<char>| exists|k: nat| n <= k < n + m && x == ordinal_tag(image, k)).len() == m,
    decreases m,
{
    let tags = Set::new(|x: Seq<char>| exists|k: nat| n <= k < n + m && x == ordinal_tag(image, k));
    if m == 0 {
        assert(tags =~= Set::empty());
    } else {
        let m1 = (m - 1) as nat;
        lemma_tag_set_len(image, n, m1);
        let smaller = Set::new(|x: Seq<char>| exists|k: nat| n <= k < n + m1 && x == ordinal_tag(image, k));
        let last = ordinal_tag(image, n + m1);
        assert(tags =~= smaller.insert(last)) by {
            assert forall|x: Seq<char>| tags.contains(x) implies smaller.insert(last).contains(x) by {
                let k = choose|k: nat| n <= k < n + m && x == ordinal_tag(image, k);
                if k < n + m1 {
                    assert(smaller.contains(x));
                }
            }
            assert forall|x: Seq<char>| smaller.insert(last).contains(x) implies tags.contains(x) by {
                if x != last {
                    let k = choose|k: nat| n <= k < n + m1 && x == ordinal_tag(image, k);
                    assert(n <= k < n + m);
                }
            }
        }
        assert(!smaller.contains(last)) by {
            if smaller.contains(last) {
                let k = choose|k: nat| n <= k < n + m1 && last == ordinal_tag(image, k);
                lemma_tag_injective(image, k, n + m1);
            }
        }
    }
}

proof fn lemma_free(used: Seq<Seq<char>>, image: bool, start: nat, n: nat, remaining: nat)
    requires
        start <= n,
        n - start + remaining == used.len(),
        forall|k: nat| start <= k < n ==> holds(used, #[trigger] ordinal_tag(image, k)),
    ensures
        !holds(used, ordinal_tag(image, free_from(used, image, n, remaining))),
        free_from(used, image, n, remaining) >= n,
        forall|k: nat| start <= k < free_from(used, image, n, remaining) ==> holds(used, #[trigger] ordinal_tag(image, k)),
    decreases remaining,
{
    if !holds(used, ordinal_tag(image, n)) {
    } else if remaining == 0 {
        assert forall|k: nat| start <= k < start + (used.len() + 1) implies holds(used, #[trigger] ordinal_tag(image, k)) by {
            if k == n {
            }
        }
        lemma_tags_need_room(used, image, start, (used.len() + 1) as nat);
    } else {
        lemma_free(used, image, start, n + 1, (remaining - 1) as nat);
    }
}

fn holds_exec(used: &Vec<String>, x: &str) -> (r: bool)
    ensures
        r == holds(Seq::new(used@.len(), |j: int| used@[j]@), x@),
{
    let ghost s = Seq::new(used@.len(), |j: int| used@[j]@);
    let mut j: usize = 0;
    while j < used.len()
        invariant
            j <= used@.len(),
            s == Seq::new(used@.len(), |j: int| used@[j]@),
            forall|q: int| 0 <= q < j ==> s[q] != x@,
        decreases used.len() - j,
    {
        if crate::chars::str_eq(used[j].as_str(), x) {
            assert(s[j as int] == x@);
            return true;
        }
        j = j + 1;
    }
    false
}

/// The string views of `v`.
pub open spec fn string_views(v: Seq<String>) -> Seq<Seq<char>> {
    Seq::new(v.len(), |j: int| v[j]@)
}

/// Distinct anchors for a list of attachments: two attachments with the
/// same natural anchor would make the offsets ambiguous, so the second gets
/// the next free `[Image N]` / `[File N]` instead.
pub fn unique_attachment_references(files: &[InputPart]) -> (r: Vec<String>)
    requires
        files@.len() < usize::MAX / 2,
    ensures
        string_views(r@) == unique_refs(part_views(files@)),
{
    let ghost views = part_views(files@);
    let mut references: Vec<String> = Vec::new();
    let mut index: usize = 0;
    assert(views.take(0) =~= Seq::<InputPartView>::empty());
    assert(string_views(references@) =~= Seq::<Seq<char>>::empty());
    while index < files.len()
        invariant
            index <= files@.len() < usize::MAX / 2,
            views == part_views(files@),
            string_views(references@) == unique_refs(views.take(index as int)),
            references@.len() == index,
        decreases files.len() - index,
    {
        let part = &files[index];
        let ghost used = string_views(references@);
        assert(views.take(index + 1).drop_last() =~= views.take(index as int));
        assert(views.take(index + 1).last() == part.view());
        let natural = input_part_reference(part, index);
        if !holds_exec(&references, natural.as_str()) {
            references.push(natural);
            assert(string_views(references@) =~= used.push(reference_spec(part.view(), index as nat)));
        } else {
            let image = has_prefix(part.mime(), "image/");
            let mut ordinal: usize = index + 1;
            let mut candidate = make_tag(image, ordinal);
            proof {
                lemma_free(used, image, (index + 1) as nat, (index + 1) as nat, used.len());
            }
            while holds_exec(&references, candidate.as_str())
                invariant
                    index + 1 <= ordinal <= index + 1 + used.len(),
                    used == string_views(references@),
                    used.len() == index,
                    index < usize::MAX / 2,
                    candidate@ == ordinal_tag(image, ordinal as nat),
                    free_from(used, image, ordinal as nat, (used.len() - (ordinal - index - 1)) as nat)
                        == free_from(used, image, (index + 1) as nat, used.len()),
                    forall|k: nat| index + 1 <= k < ordinal ==> holds(used, #[trigger] ordinal_tag(image, k)),
                decreases index + 1 + used.len() - ordinal,
            {
                proof {
                    lemma_free(used, image, (index + 1) as nat, ordinal as nat, (used.len() - (ordinal - index - 1)) as nat);
                    if ordinal == index + 1 + used.len() {
                        assert(false);
                    }
                }
                ordinal = ordinal + 1;
                candidate = make_tag(image, ordinal);
            }
            proof {
                lemma_free(used, image, (index + 1) as nat, ordinal as nat, (used.len() - (ordinal - index - 1)) as nat);
            }
            references.push(candidate);
            assert(string_views(references@) =~= used.push(
                ordinal_tag(image, free_from(used, image, (index + 1) as nat, used.len())),
            ));
        }
        index = index + 1;
    }
    assert(views.take(files@.len() as int) =~= views);
    references
}

/// The first character position from `c` on whose UTF-16 offset is at
/// least `from`.
pub open spec fn boundary_from(h: Seq<char>, from: nat, c: int) -> Option<int>
    decreases h.len() + 1 - c,
{
    if c < 0 || c > h.len() {
        None
    } else if utf16_units(h.take(c)) >= from {
        Some(c)
    } else {
        boundary_from(h, from, c + 1)
    }
}

/// The first character position from `c` on where `n` occurs in `h`.
pub open spec fn match_from(h: Seq<char>, n: Seq<char>, c: int) -> Option<int>
    decreases h.len() + 1 - c,
{
    if c < 0 || c + n.len() > h.len() {
        None
    } else if h.subrange(c, c + n.len()) == n {
        Some(c)
    } else {
        match_from(h, n, c + 1)
    }
}

/// `h.indexOf(n, from)` in UTF-16 units: the first occurrence starting at a
/// character whose offset is at least `from`.
pub open spec fn index_of_spec(h: Seq<char>, n: Seq<char>, from: nat) -> Option<nat> {
    match boundary_from(h, from, 0) {
        None => None,
        Some(c0) => match match_from(h, n, c0) {
            Some(c) => Some(utf16_units(h.take(c))),
            None => None,
        },
    }
}

fn occurs_at(h: &Vec<char>, n: &Vec<char>, c: usize) -> (r: bool)
    requires
        c + n@.len() <= h@.len(),
    ensures
        r == (h@.subrange(c as int, c + n@.len()) == n@),
{
    let mut k: usize = 0;
    let hl = h.len();
    while k < n.len()
        invariant
            k <= n@.len(),
            hl == h@.len(),
            c + n@.len() <= h@.len(),
            forall|j: int| 0 <= j < k ==> h@[c + j] == n@[j],
        decreases n.len() - k,
    {
        assert(c + k < h@.len());
        if h[c + k] != n[k] {
            assert(h@.subrange(c as int, c + n@.len())[k as int] != n@[k as int]);
            return false;
        }
        k = k + 1;
    }
    assert(h@.subrange(c as int, c + n@.len()) =~= n@);
    true
}

/// `haystack.indexOf(needle, from)` in UTF-16 units.
pub fn utf16_index_of(haystack: &str, needle: &str, from: usize) -> (r: Option<usize>)
    ensures
        match index_of_spec(haystack@, needle@, from as nat) {
            Some(u) => r == Some(u as usize),
            None => r is None,
        },
{
    let h = chars_of(haystack);
    let n = chars_of(needle);
    let bytes = byte_len(haystack);
    proof {
        lemma_utf16_within_utf8(haystack@);
    }
    let mut c: usize = 0;
    let mut units: usize = 0;
    assert(h@.take(0) =~= Seq::<char>::empty());
    while c < h.len() && units < from
        invariant
            c <= h@.len(),
            h@ == haystack@,
            utf16_units(h@) <= bytes,
            units == utf16_units(h@.take(c as int)),
            boundary_from(h@, from as nat, 0) == boundary_from(h@, from as nat, c as int),
        decreases h.len() - c,
    {
        proof {
            crate::text::lemma_utf16_units_take_monotone(h@, c + 1, h@.len() as int);
            assert(h@.take(h@.len() as int) =~= h@);
            assert(h@.take(c + 1).drop_last() =~= h@.take(c as int));
            assert(h@.take(c + 1).last() == h@[c as int]);
        }
        units = units + if (h[c] as u32) >= 0x10000 { 2 } else { 1 };
        c = c + 1;
    }
    if units < from {
        assert(c == h@.len());
        assert(boundary_from(h@, from as nat, c + 1) is None);
        return None;
    }
    let start = c;
    let mut m: usize = start;
    while m <= h.len() && n.len() <= h.len() - m && !occurs_at(&h, &n, m)
        invariant
            start <= m,
            h@ == haystack@,
            n@ == needle@,
            utf16_units(h@) <= bytes,
            match_from(h@, n@, start as int) == match_from(h@, n@, m as int),
        decreases h.len() + 1 - m,
    {
        proof {
            if n@.len() == 0 {
                assert(h@.subrange(m as int, m as int) =~= n@);
            }
        }
        m = m + 1;
    }
    if m > h.len() || n.len() > h.len() - m {
        return None;
    }
    let mut u: usize = 0;
    let mut k: usize = 0;
    assert(h@.take(0) =~= Seq::<char>::empty());
    while k < m
        invariant
            k <= m <= h@.len(),
            h@ == haystack@,
            utf16_units(h@) <= bytes,
            u == utf16_units(h@.take(k as int)),
        decreases m - k,
    {
        proof {
            crate::text::lemma_utf16_units_take_monotone(h@, k + 1, h@.len() as int);
            assert(h@.take(h@.len() as int) =~= h@);
            assert(h@.take(k + 1).drop_last() =~= h@.take(k as int));
            assert(h@.take(k + 1).last() == h@[k as int]);
        }
        u = u + if (h[k] as u32) >= 0x10000 { 2 } else { 1 };
        k = k + 1;
    }
    Some(u)
}

/// Whether `r` occurs in `t`.
pub open spec fn occurs_in(t: Seq<char>, r: Seq<char>) -> bool {
    match_from(t, r, 0) is Some
}

fn occurs_in_exec(t: &Vec<char>, r: &Vec<char>) -> (b: bool)
    ensures
        b == occurs_in(t@, r@),
{
    let mut m: usize = 0;
    while m <= t.len() && r.len() <= t.len() - m && !occurs_at(t, r, m)
        invariant
            match_from(t@, r@, 0) == match_from(t@, r@, m as int),
        decreases t.len() + 1 - m,
    {
        proof {
            if r@.len() == 0 {
                assert(t@.subrange(m as int, m as int) =~= r@);
            }
        }
        m = m + 1;
    }
    !(m > t.len() || r.len() > t.len() - m)
}

/// `lines` joined with `sep`.
pub open spec fn join_with(lines: Seq<Seq<char>>, sep: char) -> Seq<char>
    decreases lines.len(),
{
    if lines.len() == 0 {
        Seq::empty()
    } else if lines.len() == 1 {
        lines[0]
    } else {
        join_with(lines.drop_last(), sep) + seq![sep] + lines.last()
    }
}

/// The anchors the turn's text does not already contain, in order.
pub open spec fn missing_refs(refs: Seq<Seq<char>>, text: Seq<char>) -> Seq<Seq<char>>
    decreases refs.len(),
{
    if refs.len() == 0 {
        Seq::empty()
    } else if occurs_in(text, refs.last()) {
        missing_refs(refs.drop_last(), text)
    } else {
        missing_refs(refs.drop_last(), text).push(refs.last())
    }
}

/// The anchored text: the missing anchors, space-separated, before the
/// user's own text; empty pieces are left out.
pub open spec fn anchor_text(refs: Seq<Seq<char>>, original: Seq<char>) -> Seq<char> {
    let prefix = join_with(missing_refs(refs, original), ' ');
    if prefix.len() == 0 {
        original
    } else if original.len() == 0 {
        prefix
    } else {
        prefix + seq![' '] + original
    }
}

/// `units` as an `i64` offset, saturating.
pub open spec fn offset_of(units: nat) -> i64 {
    if units > i64::MAX { i64::MAX } else { units as i64 }
}

/// What `utf16_len` reports: the UTF-16 length, saturating.
pub open spec fn utf16_len_spec(s: Seq<char>) -> nat {
    if utf16_units(s) <= usize::MAX { utf16_units(s) } else { usize::MAX as nat }
}

/// The start offset of each anchor in `text`, searching after the previous
/// anchor first and from the start second; `-1` when it is absent. The
/// second component is where the next search starts.
pub open spec fn anchor_starts(text: Seq<char>, refs: Seq<Seq<char>>) -> (Seq<int>, nat)
    decreases refs.len(),
{
    if refs.len() == 0 {
        (Seq::empty(), 0)
    } else {
        let (starts, from) = anchor_starts(text, refs.drop_last());
        let r = refs.last();
        let found = match index_of_spec(text, r, from) {
            Some(u) => Some(u),
            None => index_of_spec(text, r, 0),
        };
        match found {
            Some(u) => (starts.push(u as int), u + utf16_len_spec(r)),
            None => (starts.push(-1), from),
        }
    }
}

/// An attachment bound to anchor `r` at `start`: its source keeps its kind
/// (a file by default) and path, and gains the anchor with its offsets.
pub open spec fn bind_anchor(f: InputPartView, r: Seq<char>, start: int) -> InputPartView {
    let s = if start < 0 { -1i64 } else { offset_of(start as nat) };
    let w = if utf16_len_spec(r) > i64::MAX { 0i64 } else { utf16_len_spec(r) as i64 };
    let end = if s + w > i64::MAX { i64::MAX } else { (s + w) as i64 };
    match f {
        InputPartView::File { mime, filename, url, source, input_ref } => InputPartView::File {
            mime,
            filename,
            url,
            input_ref,
            source: Some(PartSourceView {
                kind: match source {
                    Some(src) => src.kind,
                    None => SourceKind::File,
                },
                path: match source {
                    Some(src) => src.path,
                    None => None,
                },
                text: Some(SourceTextView { value: r, start: Some(s), end: Some(end) }),
            }),
        },
        InputPartView::Text(t) => InputPartView::Text(t),
    }
}

/// The anchored parts: with no attachments, the parts as they are;
/// otherwise one text part carrying the anchored text, then every
/// attachment bound to its anchor.
pub open spec fn anchored_spec(views: Seq<InputPartView>) -> Seq<InputPartView> {
    let files = files_of(views);
    if files.len() == 0 {
        views
    } else {
        let refs = unique_refs(files);
        let text = anchor_text(refs, input_text_spec(views));
        let starts = anchor_starts(text, refs).0;
        seq![InputPartView::Text(text)] + Seq::new(files.len(), |i: int| bind_anchor(files[i], refs[i], starts[i]))
    }
}

proof fn lemma_units_concat(a: Seq<char>, b: Seq<char>)
    ensures
        utf16_units(a + b) == utf16_units(a) + utf16_units(b),
    decreases b.len(),
{
    if b.len() > 0 {
        assert((a + b).drop_last() =~= a + b.drop_last());
        lemma_units_concat(a, b.drop_last());
    } else {
        assert(a + b =~= a);
    }
}

/// There are no more attachments than parts, and every one is a file.
pub proof fn lemma_files_of_len_pub(v: Seq<InputPartView>)
    ensures
        files_of(v).len() <= v.len(),
        forall|i: int| 0 <= i < files_of(v).len() ==> (#[trigger] files_of(v)[i]).is_file(),
{
    lemma_files_of_len(v);
}

proof fn lemma_files_of_len(v: Seq<InputPartView>)
    ensures
        files_of(v).len() <= v.len(),
        forall|i: int| 0 <= i < files_of(v).len() ==> (#[trigger] files_of(v)[i]).is_file(),
    decreases v.len(),
{
    if v.len() > 0 {
        lemma_files_of_len(v.drop_last());
    }
}

/// Give every attachment a textual anchor and bind the offsets back. The
/// file part stays authoritative; anchors the user's own text already
/// contains are not repeated.
pub fn with_attachment_anchors(parts: &[Part]) -> (r: Vec<Part>)
    requires
        parts@.len() < usize::MAX / 2,
    ensures
        part_views(r@) == anchored_spec(part_views(parts@)),
{
    let ghost views = part_views(parts@);
    let files = input_file_parts(parts);
    proof {
        lemma_files_of_len(views);
    }
    if files.len() == 0 {
        let mut copy: Vec<Part> = Vec::new();
        let mut i: usize = 0;
        while i < parts.len()
            invariant
                i <= parts@.len(),
                part_views(copy@) == views.take(i as int),
                views == part_views(parts@),
            decreases parts.len() - i,
        {
            let ghost before = part_views(copy@);
            copy.push(clone_part(&parts[i]));
            assert(part_views(copy@) =~= before.push(views[i as int]));
            assert(views.take(i + 1) =~= views.take(i as int).push(views[i as int]));
            i = i + 1;
        }
        assert(views.take(parts@.len() as int) =~= views);
        return copy;
    }
    let ghost fv = part_views(files@);
    let references = unique_attachment_references(&files);
    let ghost refs = unique_refs(fv);
    proof {
        lemma_unique_refs_len(fv);
    }
    let original = input_text(parts);
    let original_chars = chars_of(original.as_str());
    let mut prefix: Vec<char> = Vec::new();
    let mut n_missing: usize = 0;
    let mut k: usize = 0;
    assert(refs.take(0) =~= Seq::<Seq<char>>::empty());
    while k < references.len()
        invariant
            k <= references@.len(),
            references@.len() == refs.len(),
            string_views(references@) == refs,
            original_chars@ == input_text_spec(views),
            prefix@ == join_with(missing_refs(refs.take(k as int), original_chars@), ' '),
            n_missing == missing_refs(refs.take(k as int), original_chars@).len(),
            n_missing <= k,
        decreases references.len() - k,
    {
        let r = chars_of(references[k].as_str());
        assert(r@ == refs[k as int]);
        assert(refs.take(k + 1).drop_last() =~= refs.take(k as int));
        assert(refs.take(k + 1).last() == refs[k as int]);
        if !occurs_in_exec(&original_chars, &r) {
            let ghost m = missing_refs(refs.take(k as int), original_chars@);
            if n_missing > 0 {
                prefix.push(' ');
            }
            crate::chars::push_all(&mut prefix, &r);
            proof {
                if m.len() > 0 {
                    assert(m.push(r@).drop_last() =~= m);
                } else {
                    assert(prefix@ =~= r@);
                }
            }
            n_missing = n_missing + 1;
        }
        k = k + 1;
    }
    assert(refs.take(refs.len() as int) =~= refs);
    let mut text_chars: Vec<char> = Vec::new();
    if prefix.len() == 0 {
        text_chars = original_chars;
    } else if original_chars.len() == 0 {
        text_chars = prefix;
    } else {
        crate::chars::push_all(&mut text_chars, &prefix);
        text_chars.push(' ');
        crate::chars::push_all(&mut text_chars, &original_chars);
    }
    let text = string_from_chars(&text_chars);
    let ghost tv = anchor_text(refs, input_text_spec(views));
    assert(text@ == tv);
    let mut anchored: Vec<Part> = Vec::new();
    anchored.push(Part::text(text.as_str()));
    let bytes = byte_len(text.as_str());
    proof {
        lemma_utf16_within_utf8(tv);
    }
    let mut search_from: usize = 0;
    let mut index: usize = 0;
    assert(refs.take(0) =~= Seq::<Seq<char>>::empty());
    while index < files.len()
        invariant
            index <= files@.len(),
            fv == part_views(files@),
            fv.len() == refs.len(),
            string_views(references@) == refs,
            references@.len() == refs.len(),
            text@ == tv,
            utf16_units(tv) <= bytes,
            forall|i: int| 0 <= i < fv.len() ==> (#[trigger] fv[i]).is_file(),
            search_from == anchor_starts(tv, refs.take(index as int)).1,
            anchored@.len() == index + 1,
            part_views(anchored@) == seq![InputPartView::Text(tv)] + Seq::new(index as nat, |i: int| bind_anchor(fv[i], refs[i], anchor_starts(tv, refs.take(index as int)).0[i])),
            anchor_starts(tv, refs.take(index as int)).0.len() == index,
        decreases files.len() - index,
    {
        let reference = references[index].as_str();
        assert(reference@ == refs[index as int]);
        let ghost pre = anchor_starts(tv, refs.take(index as int));
        assert(refs.take(index + 1).drop_last() =~= refs.take(index as int));
        assert(refs.take(index + 1).last() == refs[index as int]);
        let start = match utf16_index_of(text.as_str(), reference, search_from) {
            Some(s) => Some(s),
            None => utf16_index_of(text.as_str(), reference, 0),
        };
        let width = utf16_len(reference);
        match start {
            Some(s) => {
                proof {
                    lemma_found_fits(tv, refs[index as int], if index_of_spec(tv, refs[index as int], search_from as nat) is Some { search_from as nat } else { 0 });
                }
                search_from = s + width;
            },
            None => {},
        }
        let start_offset: i64 = match start {
            Some(v) => if (v as u64) <= 9223372036854775807u64 { v as i64 } else { i64::MAX },
            None => -1,
        };
        let width_offset: i64 = if (width as u64) <= 9223372036854775807u64 { width as i64 } else { 0 };
        let end: i64 = if start_offset > i64::MAX - width_offset { i64::MAX } else { start_offset + width_offset };
        let part = &files[index];
        let ghost post = anchor_starts(tv, refs.take(index + 1));
        match part {
            Part::File { mime, filename, url, source, meta } => {
                let (kind, path) = match source {
                    Some(src) => (src.kind, match &src.path {
                        Some(p) => Some(p.clone()),
                        None => None,
                    }),
                    None => (SourceKind::File, None),
                };
                let bound = Part::File {
                    mime: mime.clone(),
                    filename: match filename {
                        Some(f) => Some(f.clone()),
                        None => None,
                    },
                    url: url.clone(),
                    source: Some(PartSource {
                        kind,
                        path,
                        text: Some(SourceText { value: reference.to_owned(), start: Some(start_offset), end: Some(end) }),
                    }),
                    meta: match meta {
                        Some(m) => Some(crate::input::parts::PartMeta {
                            input_ref: match &m.input_ref {
                                Some(x) => Some(x.clone()),
                                None => None,
                            },
                        }),
                        None => None,
                    },
                };
                let ghost before = part_views(anchored@);
                anchored.push(bound);
                proof {
                    assert(fv[index as int] == part.view());
                    assert(post.0 == pre.0.push(post.0[index as int]));
                    assert(bound.view() == bind_anchor(fv[index as int], refs[index as int], post.0[index as int]));
                    let want = seq![InputPartView::Text(tv)] + Seq::new((index + 1) as nat, |i: int| bind_anchor(fv[i], refs[i], post.0[i]));
                    let had = seq![InputPartView::Text(tv)] + Seq::new(index as nat, |i: int| bind_anchor(fv[i], refs[i], pre.0[i]));
                    assert(before == had);
                    assert(part_views(anchored@) =~= before.push(bound.view()));
                    assert forall|j: int| 0 <= j < want.len() implies part_views(anchored@)[j] == want[j] by {
                        if j == 0 {
                        } else if j < index + 1 {
                            assert(post.0[j - 1] == pre.0[j - 1]);
                            assert(part_views(anchored@)[j] == had[j]);
                        } else {
                            assert(part_views(anchored@)[j] == bound.view());
                        }
                    }
                    assert(part_views(anchored@) =~= want);
                }
            },
            Part::Text { .. } => {
                assert(fv[index as int] == part.view());
                assert(false);
            },
        }
        index = index + 1;
    }
    assert(refs.take(files@.len() as int) =~= refs);
    anchored
}

/// An occurrence found in `h` ends within `h`'s UTF-16 length.
proof fn lemma_found_fits(h: Seq<char>, n: Seq<char>, from: nat)
    ensures
        index_of_spec(h, n, from) matches Some(u) ==> u + utf16_units(n) <= utf16_units(h),
{
    if let Some(c0) = boundary_from(h, from, 0) {
        lemma_match_from_found(h, n, c0);
        if let Some(c) = match_from(h, n, c0) {
            assert(h.take(c + n.len()) =~= h.take(c) + h.subrange(c, c + n.len()));
            lemma_units_concat(h.take(c), h.subrange(c, c + n.len()));
            crate::text::lemma_utf16_units_take_monotone(h, c + n.len(), h.len() as int);
            assert(h.take(h.len() as int) =~= h);
        }
    }
}

proof fn lemma_match_from_found(h: Seq<char>, n: Seq<char>, c: int)
    ensures
        match_from(h, n, c) matches Some(m) ==> 0 <= m && m + n.len() <= h.len() && h.subrange(m, m + n.len()) == n,
    decreases h.len() + 1 - c,
{
    if !(c < 0 || c + n.len() > h.len()) && h.subrange(c, c + n.len()) != n {
        lemma_match_from_found(h, n, c + 1);
    }
}

} // verus!
