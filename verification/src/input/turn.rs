//! A whole submission: validation of every part, the turn's text, its
//! attachments, and the merge of attachment lists.

use vstd::prelude::*;
use crate::announcement::format::join_lines;
use crate::chars::{chars_of, decimal_seq, push_all, push_decimal, push_str, string_from_chars};
use crate::input::parts::{
    clean_text, clean_text_spec, megabytes, megabytes_spec, normalize_file_part, normalize_file_spec,
    part_bytes, part_bytes_spec, part_views, InputError, InputPart, InputPartView, InputRejection, PartMeta,
    PartSource, RejectionView, SourceText, MAX_INPUT_PARTS, MAX_INPUT_TOTAL_FILE_BYTES, MAX_TEXT_CHARS,
};
use crate::text::{trim, trim_seq, trimmed};

verus! {

/// A text part's text, as validated: NULs dropped, bounded, trimmed.
pub open spec fn text_part_spec(text: Seq<char>) -> Seq<char> {
    trim_seq(clean_text_spec(text, MAX_TEXT_CHARS as nat))
}

/// Validate the parts in order: blank text parts are dropped, file parts
/// validated; the first refusal wins.
pub open spec fn normalize_prefix(parts: Seq<InputPartView>) -> Result<Seq<InputPartView>, RejectionView>
    decreases parts.len(),
{
    if parts.len() == 0 {
        Ok(Seq::empty())
    } else {
        match normalize_prefix(parts.drop_last()) {
            Err(e) => Err(e),
            Ok(v) => match parts.last() {
                InputPartView::Text(t) => {
                    let c = text_part_spec(t);
                    if c.len() > 0 {
                        Ok(v.push(InputPartView::Text(c)))
                    } else {
                        Ok(v)
                    }
                },
                InputPartView::File { .. } => match normalize_file_spec(parts.last()) {
                    Ok(p) => Ok(v.push(p)),
                    Err(e) => Err(e),
                },
            },
        }
    }
}

/// Whether some part is a text part.
pub open spec fn has_text_part(v: Seq<InputPartView>) -> bool {
    exists|i: int| 0 <= i < v.len() && v[i] is Text
}

/// The fallback text goes first, and only when no text part survived.
pub open spec fn with_fallback(v: Seq<InputPartView>, fallback: Seq<char>) -> Seq<InputPartView> {
    let t = text_part_spec(fallback);
    if has_text_part(v) || t.len() == 0 {
        v
    } else {
        seq![InputPartView::Text(t)] + v
    }
}

/// The bytes the parts count against the turn's budget.
pub open spec fn total_bytes(v: Seq<InputPartView>) -> nat
    decreases v.len(),
{
    if v.len() == 0 {
        0
    } else {
        total_bytes(v.drop_last()) + part_bytes_spec(v.last())
    }
}

proof fn lemma_total_bytes_prefix(v: Seq<InputPartView>, k: int)
    requires
        0 <= k <= v.len(),
    ensures
        total_bytes(v.take(k)) <= total_bytes(v),
    decreases v.len(),
{
    if k < v.len() {
        assert(v.drop_last().take(k) =~= v.take(k));
        lemma_total_bytes_prefix(v.drop_last(), k);
    } else {
        assert(v.take(k) =~= v);
    }
}

/// A whole submission's validation: the count bound first, before anything
/// is normalized; then every part; the fallback text when no text part
/// survived; the total-size bound on what survived; and a refusal when
/// nothing did.
pub open spec fn normalize_input_spec(parts: Seq<InputPartView>, fallback: Seq<char>) -> Result<Seq<InputPartView>, RejectionView> {
    if parts.len() > MAX_INPUT_PARTS {
        Err(RejectionView::TooManyParts(decimal_seq(MAX_INPUT_PARTS as nat)))
    } else {
        match normalize_prefix(parts) {
            Err(e) => Err(e),
            Ok(v) => {
                let w = with_fallback(v, fallback);
                if total_bytes(w) > MAX_INPUT_TOTAL_FILE_BYTES {
                    Err(RejectionView::TotalTooLarge(megabytes_spec(MAX_INPUT_TOTAL_FILE_BYTES as nat)))
                } else if w.len() == 0 {
                    Err(RejectionView::Empty)
                } else {
                    Ok(w)
                }
            },
        }
    }
}

/// The result of a submission's validation, as sequences.
pub open spec fn parts_result_view(r: Result<Vec<InputPart>, InputError>) -> Result<Seq<InputPartView>, RejectionView> {
    match r {
        Ok(v) => Ok(part_views(v@)),
        Err(e) => Err(e.view()),
    }
}

/// Validate a whole submission.
pub fn normalize_input_parts(parts: &[InputPart], fallback_text: &str) -> (r: Result<Vec<InputPart>, InputError>)
    ensures
        parts_result_view(r) == normalize_input_spec(part_views(parts@), fallback_text@),
{
    let ghost views = part_views(parts@);
    if parts.len() > MAX_INPUT_PARTS {
        let mut limit: Vec<char> = Vec::new();
        push_decimal(&mut limit, MAX_INPUT_PARTS as u64);
        return Err(InputError { rejection: InputRejection::TooManyParts(string_from_chars(&limit)) });
    }
    let mut normalized: Vec<InputPart> = Vec::new();
    assert(views.take(0) =~= Seq::<InputPartView>::empty());
    assert(part_views(normalized@) =~= Seq::<InputPartView>::empty());
    let mut i: usize = 0;
    while i < parts.len()
        invariant
            i <= parts@.len(),
            views == part_views(parts@),
            parts@.len() <= MAX_INPUT_PARTS,
            normalize_prefix(views.take(i as int)) == Ok::<Seq<InputPartView>, RejectionView>(part_views(normalized@)),
        decreases parts.len() - i,
    {
        assert(views.take(i + 1).drop_last() =~= views.take(i as int));
        assert(views.take(i + 1).last() == parts@[i as int].view());
        match &parts[i] {
            InputPart::Text { text } => {
                let cleaned = clean_text(text.as_str(), MAX_TEXT_CHARS);
                let t = trimmed(cleaned.as_str());
                if t.as_str().unicode_len() > 0 {
                    let ghost before = part_views(normalized@);
                    normalized.push(InputPart::Text { text: t });
                    assert(part_views(normalized@) =~= before.push(normalized@.last().view()));
                }
            },
            InputPart::File { .. } => {
                match normalize_file_part(&parts[i]) {
                    Ok(p) => {
                        let ghost before = part_views(normalized@);
                        normalized.push(p);
                        assert(part_views(normalized@) =~= before.push(normalized@.last().view()));
                    },
                    Err(e) => {
                        proof {
                            assert(normalize_file_spec(views.take(i + 1).last()) == Err::<InputPartView, RejectionView>(e.view()));
                            assert(normalize_prefix(views.take(i + 1)) == Err::<Seq<InputPartView>, RejectionView>(e.view()));
                            lemma_error_persists(views, i as int + 1);
                        }
                        return Err(e);
                    },
                }
            },
        }
        i = i + 1;
    }
    assert(views.take(parts@.len() as int) =~= views);
    let ghost v = part_views(normalized@);
    let mut has_text = false;
    let mut k: usize = 0;
    while k < normalized.len()
        invariant
            k <= normalized@.len(),
            v == part_views(normalized@),
            has_text == exists|j: int| 0 <= j < k && v[j] is Text,
            normalize_prefix(views) == Ok::<Seq<InputPartView>, RejectionView>(v),
            parts@.len() <= MAX_INPUT_PARTS,
        decreases normalized.len() - k,
    {
        assert(v[k as int] == normalized@[k as int].view());
        match &normalized[k] {
            InputPart::Text { .. } => {
                has_text = true;
            },
            InputPart::File { .. } => {},
        }
        k = k + 1;
    }
    if !has_text {
        let cleaned = clean_text(fallback_text, MAX_TEXT_CHARS);
        let t = trimmed(cleaned.as_str());
        if t.as_str().unicode_len() > 0 {
            normalized.insert(0, InputPart::Text { text: t });
            assert(part_views(normalized@) =~= seq![InputPartView::Text(text_part_spec(fallback_text@))] + v);
        }
    }
    let ghost w = part_views(normalized@);
    assert(w == with_fallback(v, fallback_text@));
    let mut total: usize = 0;
    let mut j: usize = 0;
    while j < normalized.len()
        invariant
            j <= normalized@.len(),
            w == part_views(normalized@),
            w == with_fallback(v, fallback_text@),
            normalize_prefix(views) == Ok::<Seq<InputPartView>, RejectionView>(v),
            views == part_views(parts@),
            parts@.len() <= MAX_INPUT_PARTS,
            total == total_bytes(w.take(j as int)),
            total <= MAX_INPUT_TOTAL_FILE_BYTES,
        decreases normalized.len() - j,
    {
        let b = part_bytes(&normalized[j]);
        assert(w.take(j + 1).drop_last() =~= w.take(j as int));
        assert(w.take(j + 1).last() == normalized@[j as int].view());
        if b > MAX_INPUT_TOTAL_FILE_BYTES - total {
            proof {
                assert(total_bytes(w.take(j + 1)) == total + b);
                lemma_total_bytes_prefix(w, j + 1);
                assert(total_bytes(w) > MAX_INPUT_TOTAL_FILE_BYTES);
                assert(normalize_prefix(views) == Ok::<Seq<InputPartView>, RejectionView>(v));
            }
            return Err(InputError { rejection: InputRejection::TotalTooLarge(megabytes(MAX_INPUT_TOTAL_FILE_BYTES)) });
        }
        total = total + b;
        j = j + 1;
    }
    assert(w.take(normalized@.len() as int) =~= w);
    if normalized.len() == 0 {
        return Err(InputError { rejection: InputRejection::Empty });
    }
    Ok(normalized)
}

proof fn lemma_error_persists(parts: Seq<InputPartView>, k: int)
    requires
        0 <= k <= parts.len(),
        normalize_prefix(parts.take(k)) is Err,
    ensures
        normalize_prefix(parts) == normalize_prefix(parts.take(k)),
    decreases parts.len() - k,
{
    if k < parts.len() {
        assert(parts.take(k + 1).drop_last() =~= parts.take(k));
        lemma_error_persists(parts, k + 1);
    } else {
        assert(parts.take(k) =~= parts);
    }
}

/// The trimmed, non-empty texts of the text parts, in order.
pub open spec fn texts_of(v: Seq<InputPartView>) -> Seq<Seq<char>>
    decreases v.len(),
{
    if v.len() == 0 {
        Seq::empty()
    } else {
        let rest = texts_of(v.drop_last());
        match v.last() {
            InputPartView::Text(t) => if trim_seq(t).len() > 0 {
                rest.push(trim_seq(t))
            } else {
                rest
            },
            InputPartView::File { .. } => rest,
        }
    }
}

/// Every text part, trimmed, blank ones dropped, joined with newlines.
pub open spec fn input_text_spec(v: Seq<InputPartView>) -> Seq<char> {
    join_lines(texts_of(v))
}

/// Every text part, trimmed, blank ones dropped, joined with newlines.
pub fn input_text(parts: &[InputPart]) -> (r: String)
    ensures
        r@ == input_text_spec(part_views(parts@)),
{
    let ghost views = part_views(parts@);
    let mut out: Vec<char> = Vec::new();
    let mut count: usize = 0;
    assert(views.take(0) =~= Seq::<InputPartView>::empty());
    let mut i: usize = 0;
    while i < parts.len()
        invariant
            i <= parts@.len(),
            views == part_views(parts@),
            out@ == join_lines(texts_of(views.take(i as int))),
            count == texts_of(views.take(i as int)).len(),
            count <= i,
        decreases parts.len() - i,
    {
        assert(views.take(i + 1).drop_last() =~= views.take(i as int));
        assert(views.take(i + 1).last() == parts@[i as int].view());
        match &parts[i] {
            InputPart::Text { text } => {
                let t = trim(text.as_str());
                if t.unicode_len() > 0 {
                    let ghost lines = texts_of(views.take(i as int));
                    if count > 0 {
                        out.push('\n');
                    }
                    push_str(&mut out, t);
                    proof {
                        if lines.len() > 0 {
                            assert(lines.push(t@).drop_last() =~= lines);
                        } else {
                            assert(out@ =~= t@);
                        }
                    }
                    count = count + 1;
                }
            },
            InputPart::File { .. } => {},
        }
        i = i + 1;
    }
    assert(views.take(parts@.len() as int) =~= views);
    string_from_chars(&out)
}

/// The file parts, in order.
pub open spec fn files_of(v: Seq<InputPartView>) -> Seq<InputPartView>
    decreases v.len(),
{
    if v.len() == 0 {
        Seq::empty()
    } else if v.last().is_file() {
        files_of(v.drop_last()).push(v.last())
    } else {
        files_of(v.drop_last())
    }
}

fn clone_source_text(t: &SourceText) -> (r: SourceText)
    ensures
        r.view() == t.view(),
{
    SourceText { value: t.value.clone(), start: t.start, end: t.end }
}

/// A copy of `s`.
pub fn clone_source(s: &PartSource) -> (r: PartSource)
    ensures
        r.view() == s.view(),
{
    PartSource {
        kind: s.kind,
        path: match &s.path {
            Some(p) => Some(p.clone()),
            None => None,
        },
        text: match &s.text {
            Some(t) => Some(clone_source_text(t)),
            None => None,
        },
    }
}

/// A copy of `p`.
pub fn clone_part(p: &InputPart) -> (r: InputPart)
    ensures
        r.view() == p.view(),
{
    match p {
        InputPart::Text { text } => InputPart::Text { text: text.clone() },
        InputPart::File { mime, filename, url, source, meta } => InputPart::File {
            mime: mime.clone(),
            filename: match filename {
                Some(f) => Some(f.clone()),
                None => None,
            },
            url: url.clone(),
            source: match source {
                Some(s) => Some(clone_source(s)),
                None => None,
            },
            meta: match meta {
                Some(m) => Some(PartMeta {
                    input_ref: match &m.input_ref {
                        Some(r) => Some(r.clone()),
                        None => None,
                    },
                }),
                None => None,
            },
        },
    }
}

/// Every file part, in order.
pub fn input_file_parts(parts: &[InputPart]) -> (r: Vec<InputPart>)
    ensures
        part_views(r@) == files_of(part_views(parts@)),
{
    let ghost views = part_views(parts@);
    let mut out: Vec<InputPart> = Vec::new();
    let mut i: usize = 0;
    while i < parts.len()
        invariant
            i <= parts@.len(),
            views == part_views(parts@),
            part_views(out@) == files_of(views.take(i as int)),
        decreases parts.len() - i,
    {
        assert(views.take(i + 1).drop_last() =~= views.take(i as int));
        assert(views.take(i + 1).last() == parts@[i as int].view());
        if parts[i].is_file() {
            let ghost before = part_views(out@);
            out.push(clone_part(&parts[i]));
            assert(part_views(out@) =~= before.push(parts@[i as int].view()));
        }
        i = i + 1;
    }
    assert(views.take(parts@.len() as int) =~= views);
    out
}

/// What identifies an attachment in a merge: its `input_N` reference when it
/// has one, otherwise its MIME type and URL separated by a NUL.
pub open spec fn merge_key(p: InputPartView) -> Seq<char> {
    if p.reference().len() > 0 {
        p.reference()
    } else {
        p.mime() + seq!['\0'] + p.url()
    }
}

/// The attachments of `s`, keeping the first of each key; text parts are
/// dropped.
pub open spec fn merge_spec(s: Seq<InputPartView>) -> Seq<InputPartView>
    decreases s.len(),
{
    if s.len() == 0 {
        Seq::empty()
    } else {
        let m = merge_spec(s.drop_last());
        let p = s.last();
        if p.is_file() && !(exists|j: int| 0 <= j < m.len() && merge_key(m[j]) == merge_key(p)) {
            m.push(p)
        } else {
            m
        }
    }
}

/// The groups, one after another.
pub open spec fn concat_groups(gs: Seq<Seq<InputPartView>>) -> Seq<InputPartView>
    decreases gs.len(),
{
    if gs.len() == 0 {
        Seq::empty()
    } else {
        concat_groups(gs.drop_last()) + gs.last()
    }
}

fn merge_key_of(p: &InputPart) -> (r: Vec<char>)
    ensures
        r@ == merge_key(p.view()),
{
    let reference = p.reference();
    if reference.unicode_len() > 0 {
        chars_of(reference)
    } else {
        let mut key = chars_of(p.mime());
        key.push('\0');
        push_str(&mut key, p.url());
        key
    }
}

/// Merge attachment lists, keeping the first occurrence of each: the same
/// file submitted twice is delegated once. Text parts are dropped.
pub fn merge_input_parts(groups: &[&[InputPart]]) -> (r: Vec<InputPart>)
    ensures
        part_views(r@) == merge_spec(concat_groups(Seq::new(groups@.len(), |g: int| part_views(groups@[g]@)))),
{
    let ghost gs = Seq::new(groups@.len(), |g: int| part_views(groups@[g]@));
    let mut merged: Vec<InputPart> = Vec::new();
    let mut seen: Vec<Vec<char>> = Vec::new();
    let mut g: usize = 0;
    while g < groups.len()
        invariant
            g <= groups@.len(),
            gs == Seq::new(groups@.len(), |g: int| part_views(groups@[g]@)),
            part_views(merged@) == merge_spec(concat_groups(gs.take(g as int))),
            seen@.len() == merged@.len(),
            forall|j: int| 0 <= j < seen@.len() ==> (#[trigger] seen@[j])@ == merge_key(merged@[j].view()),
        decreases groups.len() - g,
    {
        let group = groups[g];
        let ghost base = concat_groups(gs.take(g as int));
        assert(gs.take(g + 1).drop_last() =~= gs.take(g as int));
        assert(gs.take(g + 1).last() == part_views(group@));
        let mut i: usize = 0;
        while i < group.len()
            invariant
                i <= group@.len(),
                part_views(merged@) == merge_spec(base + part_views(group@).take(i as int)),
                seen@.len() == merged@.len(),
                forall|j: int| 0 <= j < seen@.len() ==> (#[trigger] seen@[j])@ == merge_key(merged@[j].view()),
            decreases group.len() - i,
        {
            let part = &group[i];
            let ghost prefix = base + part_views(group@).take(i as int);
            assert((base + part_views(group@).take(i + 1)).drop_last() =~= prefix);
            assert((base + part_views(group@).take(i + 1)).last() == part.view());
            if part.is_file() {
                let key = merge_key_of(part);
                let mut found = false;
                let mut j: usize = 0;
                while j < seen.len()
                    invariant
                        j <= seen@.len(),
                        found == exists|q: int| 0 <= q < j && seen@[q]@ == key@,
                    decreases seen.len() - j,
                {
                    if crate::chars::chars_eq(seen[j].as_slice(), key.as_slice()) {
                        found = true;
                    }
                    j = j + 1;
                }
                proof {
                    let m = part_views(merged@);
                    assert(found == exists|q: int| 0 <= q < m.len() && merge_key(m[q]) == merge_key(part.view())) by {
                        if found {
                            let q = choose|q: int| 0 <= q < seen@.len() && seen@[q]@ == key@;
                            assert(m[q] == merged@[q].view());
                        }
                        if exists|q: int| 0 <= q < m.len() && merge_key(m[q]) == merge_key(part.view()) {
                            let q = choose|q: int| 0 <= q < m.len() && merge_key(m[q]) == merge_key(part.view());
                            assert(seen@[q]@ == key@);
                        }
                    }
                }
                if !found {
                    let ghost before = part_views(merged@);
                    seen.push(key);
                    merged.push(clone_part(part));
                    assert(part_views(merged@) =~= before.push(part.view()));
                }
            }
            i = i + 1;
        }
        assert(part_views(group@).take(group@.len() as int) =~= part_views(group@));
        i = 0;
        g = g + 1;
    }
    assert(gs.take(groups@.len() as int) =~= gs);
    merged
}

/// Two file parts name the same attachment: the same `input_N` reference
/// when both carry one, the same MIME type and URL when neither does.
pub open spec fn same_attachment(a: InputPartView, b: InputPartView) -> bool {
    if a.reference().len() > 0 && b.reference().len() > 0 {
        a.reference() == b.reference()
    } else if a.reference().len() == 0 && b.reference().len() == 0 {
        a.mime() == b.mime() && a.url() == b.url()
    } else {
        false
    }
}

/// No reference and no MIME type of a file part holds a NUL.
pub open spec fn nul_free_attachments(s: Seq<InputPartView>) -> bool {
    forall|k: int|
        0 <= k < s.len() && (#[trigger] s[k]).is_file() ==> !s[k].reference().contains('\0') && !s[k].mime().contains(
            '\0',
        )
}

proof fn lemma_merge_key_names_the_attachment(a: InputPartView, b: InputPartView)
    requires
        !a.reference().contains('\0'),
        !a.mime().contains('\0'),
        !b.reference().contains('\0'),
        !b.mime().contains('\0'),
        merge_key(a) == merge_key(b),
    ensures
        same_attachment(a, b),
{
    let ka = merge_key(a);
    let kb = merge_key(b);
    if a.reference().len() > 0 && b.reference().len() == 0 {
        assert(kb[b.mime().len() as int] == '\0');
        assert(a.reference()[b.mime().len() as int] == '\0');
    } else if a.reference().len() == 0 && b.reference().len() > 0 {
        assert(ka[a.mime().len() as int] == '\0');
        assert(b.reference()[a.mime().len() as int] == '\0');
    } else if a.reference().len() == 0 && b.reference().len() == 0 {
        let (ma, mb) = (a.mime(), b.mime());
        if ma.len() < mb.len() {
            assert(ka[ma.len() as int] == '\0');
            assert(kb[ma.len() as int] == mb[ma.len() as int]);
            assert(mb.contains(mb[ma.len() as int]));
        } else if mb.len() < ma.len() {
            assert(kb[mb.len() as int] == '\0');
            assert(ka[mb.len() as int] == ma[mb.len() as int]);
            assert(ma.contains(ma[mb.len() as int]));
        }
        assert forall|i: int| 0 <= i < ma.len() implies ma[i] == mb[i] by {
            assert(ka[i] == ma[i] && kb[i] == mb[i]);
        }
        assert(ma =~= mb);
        assert(a.url() =~= ka.skip((ma.len() + 1) as int));
        assert(b.url() =~= kb.skip((mb.len() + 1) as int));
    }
}

proof fn lemma_merge_members(s: Seq<InputPartView>)
    ensures
        forall|x: int|
            0 <= x < merge_spec(s).len() ==> exists|k: int|
                0 <= k < s.len() && #[trigger] merge_spec(s)[x] == s[k] && s[k].is_file(),
    decreases s.len(),
{
    if s.len() > 0 {
        let d = s.drop_last();
        lemma_merge_members(d);
        let m = merge_spec(d);
        assert forall|x: int| 0 <= x < merge_spec(s).len() implies exists|k: int|
            0 <= k < s.len() && #[trigger] merge_spec(s)[x] == s[k] && s[k].is_file() by {
            if x < m.len() {
                let k = choose|k: int| 0 <= k < d.len() && #[trigger] m[x] == d[k] && d[k].is_file();
                assert(merge_spec(s)[x] == s[k]);
            } else {
                assert(merge_spec(s)[x] == s[s.len() - 1]);
            }
        }
    }
}

/// A merge never loses a distinct attachment: a file part that names no
/// attachment seen before it (no earlier part with its reference, or, both
/// unreferenced, with its MIME type and URL) is in the merged list, as long
/// as references and MIME types hold no NUL.
pub proof fn lemma_merge_keeps_every_new_attachment(s: Seq<InputPartView>, i: int)
    requires
        0 <= i < s.len(),
        s[i].is_file(),
        nul_free_attachments(s),
        forall|j: int| 0 <= j < i && (#[trigger] s[j]).is_file() ==> !same_attachment(s[j], s[i]),
    ensures
        merge_spec(s).contains(s[i]),
    decreases s.len(),
{
    let d = s.drop_last();
    let m = merge_spec(d);
    if i == s.len() - 1 {
        lemma_merge_members(d);
        if exists|j: int| 0 <= j < m.len() && merge_key(m[j]) == merge_key(s[i]) {
            let j = choose|j: int| 0 <= j < m.len() && merge_key(m[j]) == merge_key(s[i]);
            let k = choose|k: int| 0 <= k < d.len() && #[trigger] m[j] == d[k] && d[k].is_file();
            assert(s[k] == d[k]);
            lemma_merge_key_names_the_attachment(s[k], s[i]);
        }
        assert(merge_spec(s) == m.push(s[i]));
        assert(merge_spec(s)[m.len() as int] == s[i]);
    } else {
        assert(d[i] == s[i]);
        assert forall|j: int| 0 <= j < i && (#[trigger] d[j]).is_file() implies !same_attachment(d[j], d[i]) by {
            assert(d[j] == s[j]);
        }
        assert forall|k: int| 0 <= k < d.len() && (#[trigger] d[k]).is_file() implies !d[k].reference().contains('\0')
            && !d[k].mime().contains('\0') by {
            assert(d[k] == s[k]);
        }
        lemma_merge_keeps_every_new_attachment(d, i);
        let x = choose|x: int| 0 <= x < m.len() && m[x] == s[i];
        assert(merge_spec(s)[x] == s[i]);
    }
}

/// Every part of a merge is an attachment of its input.
pub proof fn lemma_merge_holds_only_input_attachments(s: Seq<InputPartView>)
    ensures
        forall|x: int|
            0 <= x < merge_spec(s).len() ==> (#[trigger] merge_spec(s)[x]).is_file() && s.contains(merge_spec(s)[x]),
{
    lemma_merge_members(s);
    assert forall|x: int| 0 <= x < merge_spec(s).len() implies (#[trigger] merge_spec(s)[x]).is_file() && s.contains(
        merge_spec(s)[x],
    ) by {
        let k = choose|k: int| 0 <= k < s.len() && #[trigger] merge_spec(s)[x] == s[k] && s[k].is_file();
    }
}

/// A merge keeps no attachment twice: no two of its parts name the same
/// attachment.
pub proof fn lemma_merge_keeps_each_attachment_once(s: Seq<InputPartView>)
    ensures
        forall|x: int, y: int|
            0 <= x < y < merge_spec(s).len() ==> !same_attachment(
                #[trigger] merge_spec(s)[x],
                #[trigger] merge_spec(s)[y],
            ),
    decreases s.len(),
{
    if s.len() > 0 {
        let d = s.drop_last();
        lemma_merge_keeps_each_attachment_once(d);
        let m = merge_spec(d);
        let p = s.last();
        assert forall|x: int, y: int| 0 <= x < y < merge_spec(s).len() implies !same_attachment(
            #[trigger] merge_spec(s)[x],
            #[trigger] merge_spec(s)[y],
        ) by {
            if y < m.len() {
                assert(merge_spec(s)[x] == m[x] && merge_spec(s)[y] == m[y]);
            } else {
                assert(merge_spec(s)[x] == m[x] && merge_spec(s)[y] == p);
                if same_attachment(m[x], p) {
                    assert(merge_key(m[x]) == merge_key(p));
                }
            }
        }
    }
}

} // verus!
