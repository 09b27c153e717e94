//! How two per-response instructions are composed from the catalog's
//! sentences. The sentences themselves belong to the message catalog; what
//! is decided here is which parts of them are reused.

use vstd::prelude::*;
use crate::chars::string_from_chars;
use crate::input::anchors::join_with;

verus! {

/// The pieces of `s` between single spaces, empty pieces included.
pub open spec fn space_pieces(s: Seq<char>) -> Seq<Seq<char>>
    decreases s.len(),
{
    if s.len() == 0 {
        seq![Seq::empty()]
    } else {
        let p = space_pieces(s.drop_last());
        if s.last() == ' ' {
            p.push(Seq::empty())
        } else {
            p.update(p.len() - 1, p.last().push(s.last()))
        }
    }
}

proof fn lemma_space_pieces_nonempty(s: Seq<char>)
    ensures
        space_pieces(s).len() >= 1,
    decreases s.len(),
{
    if s.len() > 0 {
        lemma_space_pieces_nonempty(s.drop_last());
    }
}

/// The second and third of `pieces`, as far as there are any.
pub open spec fn shared_pair(pieces: Seq<Seq<char>>) -> Seq<Seq<char>> {
    if pieces.len() >= 3 {
        seq![pieces[1], pieces[2]]
    } else if pieces.len() == 2 {
        seq![pieces[1]]
    } else {
        Seq::empty()
    }
}

/// What follows the first space of `s`, when there is a space.
pub open spec fn after_first_space(s: Seq<char>) -> Option<Seq<char>> {
    if s.contains(' ') {
        let i = choose|i: int| 0 <= i < s.len() && s[i] == ' ' && forall|j: int| 0 <= j < i ==> s[j] != ' ';
        Some(s.skip(i + 1))
    } else {
        None
    }
}

fn pieces_exec(s: &str) -> (r: Vec<Vec<char>>)
    ensures
        r@.len() == space_pieces(s@).len(),
        forall|i: int| 0 <= i < r@.len() ==> (#[trigger] r@[i])@ == space_pieces(s@)[i],
{
    let chars = crate::chars::chars_of(s);
    let mut out: Vec<Vec<char>> = Vec::new();
    out.push(Vec::new());
    let mut i: usize = 0;
    proof {
        assert(chars@.take(0) =~= Seq::<char>::empty());
        assert(space_pieces(Seq::<char>::empty()) =~= seq![Seq::<char>::empty()]);
    }
    while i < chars.len()
        invariant
            i <= chars@.len(),
            chars@ == s@,
            out@.len() == space_pieces(chars@.take(i as int)).len(),
            out@.len() >= 1,
            forall|k: int| 0 <= k < out@.len() ==> (#[trigger] out@[k])@ == space_pieces(chars@.take(i as int))[k],
        decreases chars.len() - i,
    {
        proof {
            assert(chars@.take(i + 1).drop_last() =~= chars@.take(i as int));
            assert(chars@.take(i + 1).last() == chars@[i as int]);
        }
        let c = chars[i];
        if c == ' ' {
            out.push(Vec::new());
        } else {
            let last = out.len() - 1;
            let mut piece = out.remove(last);
            piece.push(c);
            out.push(piece);
        }
        proof {
            let p = space_pieces(chars@.take(i as int));
            let q = space_pieces(chars@.take(i + 1));
            assert forall|k: int| 0 <= k < out@.len() implies (#[trigger] out@[k])@ == q[k] by {
                if c != ' ' && k == out@.len() - 1 {
                    assert(q[k] == p.last().push(c));
                }
            }
        }
        i = i + 1;
    }
    proof {
        assert(chars@.take(chars@.len() as int) =~= chars@);
    }
    out
}

/// What to say when the backend is configured but disconnected: the
/// catalog's `head` sentence, then what follows the first space of the
/// not-configured instruction `shared` (the two sentences the two messages
/// share), when there is any.
pub fn backend_disconnected_instructions(head: &str, shared: &str) -> (r: String)
    ensures
        r@ == (match after_first_space(shared@) {
            Some(t) => if t.len() > 0 {
                head@ + seq![' '] + t
            } else {
                head@
            },
            None => head@,
        }),
{
    let chars = crate::chars::chars_of(shared);
    let mut i: usize = 0;
    while i < chars.len() && chars[i] != ' '
        invariant
            i <= chars@.len(),
            chars@ == shared@,
            forall|j: int| 0 <= j < i ==> chars@[j] != ' ',
        decreases chars.len() - i,
    {
        i = i + 1;
    }
    if i == chars.len() {
        assert(!shared@.contains(' '));
        return head.to_owned();
    }
    proof {
        let k = choose|k: int| 0 <= k < shared@.len() && shared@[k] == ' ' && forall|j: int| 0 <= j < k ==> shared@[j] != ' ';
        assert(k == i);
    }
    if i + 1 == chars.len() {
        assert(shared@.skip(i + 1).len() == 0);
        return head.to_owned();
    }
    let mut out = crate::chars::chars_of(head);
    out.push(' ');
    let mut j: usize = i + 1;
    while j < chars.len()
        invariant
            i + 1 <= j <= chars@.len(),
            chars@ == shared@,
            out@ == head@ + seq![' '] + chars@.subrange(i + 1, j as int),
        decreases chars.len() - j,
    {
        out.push(chars[j]);
        proof {
            assert(chars@.subrange(i + 1, j + 1) =~= chars@.subrange(i + 1, j as int).push(chars@[j as int]));
        }
        j = j + 1;
    }
    proof {
        assert(chars@.subrange(i + 1, chars@.len() as int) =~= shared@.skip(i + 1));
    }
    string_from_chars(&out)
}

/// What to do after Work was accepted: the second and third space-separated
/// pieces of the catalog's `duplicate` instruction (the pair the two share),
/// then the `accepted` and `not_finished` sentences, joined by spaces.
pub fn accepted_instructions(duplicate: &str, accepted: &str, not_finished: &str) -> (r: String)
    ensures
        r@ == join_with(
            seq![join_with(shared_pair(space_pieces(duplicate@)), ' '), accepted@, not_finished@],
            ' ',
        ),
{
    proof {
        lemma_space_pieces_nonempty(duplicate@);
    }
    let pieces = pieces_exec(duplicate);
    let ghost shared_pieces = shared_pair(space_pieces(duplicate@));
    let mut shared: Vec<char> = Vec::new();
    if pieces.len() >= 2 {
        let mut k: usize = 0;
        while k < pieces[1].len()
            invariant
                pieces@.len() >= 2,
                k <= pieces@[1]@.len(),
                shared@ == pieces@[1]@.take(k as int),
            decreases pieces@[1]@.len() - k,
        {
            shared.push(pieces[1][k]);
            proof {
                assert(pieces@[1]@.take(k + 1) =~= pieces@[1]@.take(k as int).push(pieces@[1]@[k as int]));
            }
            k = k + 1;
        }
        proof {
            assert(pieces@[1]@.take(pieces@[1]@.len() as int) =~= pieces@[1]@);
        }
        if pieces.len() >= 3 {
            shared.push(' ');
            let mut k: usize = 0;
            let ghost base = shared@;
            while k < pieces[2].len()
                invariant
                    pieces@.len() >= 3,
                    k <= pieces@[2]@.len(),
                    shared@ == base + pieces@[2]@.take(k as int),
                decreases pieces@[2]@.len() - k,
            {
                shared.push(pieces[2][k]);
                proof {
                    assert(pieces@[2]@.take(k + 1) =~= pieces@[2]@.take(k as int).push(pieces@[2]@[k as int]));
                }
                k = k + 1;
            }
            proof {
                assert(pieces@[2]@.take(pieces@[2]@.len() as int) =~= pieces@[2]@);
                assert(shared_pieces.len() == 2);
                assert(shared_pieces.drop_last() =~= seq![space_pieces(duplicate@)[1]]);
                assert(join_with(shared_pieces.drop_last(), ' ') == space_pieces(duplicate@)[1]);
                assert(join_with(shared_pieces, ' ') == join_with(shared_pieces.drop_last(), ' ') + seq![' '] + shared_pieces.last());
                assert(shared@ =~= join_with(shared_pieces, ' '));
            }
        } else {
            proof {
                assert(shared_pieces.len() == 1);
                assert(shared@ =~= join_with(shared_pieces, ' '));
            }
        }
    } else {
        proof {
            assert(shared_pieces.len() == 0);
            assert(shared@ =~= join_with(shared_pieces, ' '));
        }
    }
    let ghost shared_view = shared@;
    let mut out = shared;
    out.push(' ');
    let a = crate::chars::chars_of(accepted);
    let mut k: usize = 0;
    let ghost base = out@;
    while k < a.len()
        invariant
            k <= a@.len(),
            out@ == base + a@.take(k as int),
        decreases a.len() - k,
    {
        out.push(a[k]);
        proof {
            assert(a@.take(k + 1) =~= a@.take(k as int).push(a@[k as int]));
        }
        k = k + 1;
    }
    out.push(' ');
    let n = crate::chars::chars_of(not_finished);
    let mut k: usize = 0;
    let ghost base2 = out@;
    while k < n.len()
        invariant
            k <= n@.len(),
            out@ == base2 + n@.take(k as int),
        decreases n.len() - k,
    {
        out.push(n[k]);
        proof {
            assert(n@.take(k + 1) =~= n@.take(k as int).push(n@[k as int]));
        }
        k = k + 1;
    }
    proof {
        assert(a@.take(a@.len() as int) =~= a@);
        assert(n@.take(n@.len() as int) =~= n@);
        let three = seq![join_with(shared_pieces, ' '), accepted@, not_finished@];
        assert(three.drop_last() =~= seq![join_with(shared_pieces, ' '), accepted@]);
        assert(three.drop_last().drop_last() =~= seq![join_with(shared_pieces, ' ')]);
        assert(join_with(three.drop_last().drop_last(), ' ') == shared_view);
        assert(join_with(three.drop_last(), ' ') == shared_view + seq![' '] + accepted@);
        assert(join_with(three, ' ') == shared_view + seq![' '] + accepted@ + seq![' '] + not_finished@);
        assert(out@ =~= join_with(three, ' '));
    }
    string_from_chars(&out)
}

} // verus!
