//! The system prompt the realtime model is given.
//!
//! The core policy prompt comes first, because it declares the instruction
//! hierarchy every later block is ranked by; then the persona, inside a block
//! whose `authority="persona_only"` attribute is what the policy refers to
//! when it voids anything the persona says about tools, routing,
//! permissions, safety, memory or facts; then the runtime context. Blocks
//! are joined with a blank line, empty ones dropped entirely.

use vstd::prelude::*;
use crate::announcement::format::join_lines;
use crate::chars::{chars_of, push_all, push_str, string_from_chars};
use crate::text::{trim, trim_seq};

verus! {

/// The heading above the persona block.
pub const ASSISTANT_PROFILE_HEADING: &'static str = "# Assistant Profile";

/// The persona block's opening tag, with its authority attribute.
pub const ASSISTANT_PROFILE_OPEN_TAG: &'static str = "<assistant_profile authority=\"persona_only\">";

/// The persona block's closing tag.
pub const ASSISTANT_PROFILE_CLOSE_TAG: &'static str = "</assistant_profile>";

/// The persona block: heading, opening tag, the trimmed persona, closing
/// tag, one per line.
pub open spec fn profile_block_spec(profile: Seq<char>) -> Seq<char> {
    join_lines(seq![ASSISTANT_PROFILE_HEADING@, ASSISTANT_PROFILE_OPEN_TAG@, trim_seq(profile), ASSISTANT_PROFILE_CLOSE_TAG@])
}

/// Wrap a persona body in its block.
pub fn assistant_profile_block(profile: &str) -> (r: String)
    ensures
        r@ == profile_block_spec(profile@),
{
    let mut out: Vec<char> = Vec::new();
    push_str(&mut out, ASSISTANT_PROFILE_HEADING);
    out.push('\n');
    push_str(&mut out, ASSISTANT_PROFILE_OPEN_TAG);
    out.push('\n');
    push_str(&mut out, trim(profile));
    out.push('\n');
    push_str(&mut out, ASSISTANT_PROFILE_CLOSE_TAG);
    proof {
        let l1 = seq![ASSISTANT_PROFILE_HEADING@];
        let l2 = l1.push(ASSISTANT_PROFILE_OPEN_TAG@);
        let l3 = l2.push(trim_seq(profile@));
        let l4 = l3.push(ASSISTANT_PROFILE_CLOSE_TAG@);
        assert(l2.drop_last() =~= l1);
        assert(l3.drop_last() =~= l2);
        assert(l4.drop_last() =~= l3);
        assert(join_lines(l1) == ASSISTANT_PROFILE_HEADING@);
        assert(join_lines(l2) == join_lines(l1) + seq!['\n'] + ASSISTANT_PROFILE_OPEN_TAG@);
        assert(join_lines(l3) == join_lines(l2) + seq!['\n'] + trim_seq(profile@));
        assert(join_lines(l4) == join_lines(l3) + seq!['\n'] + ASSISTANT_PROFILE_CLOSE_TAG@);
        assert(out@ =~= join_lines(l4));
        assert(l4 =~= seq![ASSISTANT_PROFILE_HEADING@, ASSISTANT_PROFILE_OPEN_TAG@, trim_seq(profile@), ASSISTANT_PROFILE_CLOSE_TAG@]);
    }
    string_from_chars(&out)
}

/// `blocks` joined with a blank line.
pub open spec fn join_blocks(blocks: Seq<Seq<char>>) -> Seq<char>
    decreases blocks.len(),
{
    if blocks.len() == 0 {
        Seq::empty()
    } else if blocks.len() == 1 {
        blocks[0]
    } else {
        join_blocks(blocks.drop_last()) + seq!['\n', '\n'] + blocks.last()
    }
}

/// The system prompt from its three parts: the trimmed policy prompt, the
/// persona block and the trimmed runtime context, empty ones dropped,
/// joined with a blank line.
pub open spec fn instructions_spec(prompt: Seq<char>, profile: Seq<char>, context: Seq<char>) -> Seq<char> {
    let p = trim_seq(prompt);
    let c = trim_seq(context);
    let blocks = (if p.len() > 0 { seq![p] } else { Seq::empty() }) + seq![profile_block_spec(profile)] + (if c.len() > 0 {
        seq![c]
    } else {
        Seq::empty()
    });
    join_blocks(blocks)
}

/// Assemble the system prompt from already-loaded parts.
pub fn assemble_frontend_instructions(prompt: &str, assistant_profile: &str, context: &str) -> (r: String)
    ensures
        r@ == instructions_spec(prompt@, assistant_profile@, context@),
{
    let p = trim(prompt);
    let block = assistant_profile_block(assistant_profile);
    let c = trim(context);
    let mut out: Vec<char> = Vec::new();
    let ghost mut blocks: Seq<Seq<char>> = Seq::empty();
    if p.unicode_len() > 0 {
        push_str(&mut out, p);
        proof {
            blocks = seq![p@];
            assert(out@ =~= join_blocks(blocks));
        }
    }
    if p.unicode_len() > 0 {
        out.push('\n');
        out.push('\n');
    }
    push_str(&mut out, block.as_str());
    proof {
        let next = blocks.push(block@);
        if blocks.len() > 0 {
            assert(next.drop_last() =~= blocks);
        }
        assert(out@ =~= join_blocks(next));
        blocks = next;
    }
    if c.unicode_len() > 0 {
        out.push('\n');
        out.push('\n');
        push_str(&mut out, c);
        proof {
            let next = blocks.push(c@);
            assert(next.drop_last() =~= blocks);
            assert(out@ =~= join_blocks(next));
            blocks = next;
        }
    }
    proof {
        let pp = trim_seq(prompt@);
        let cc = trim_seq(context@);
        assert(blocks =~= (if pp.len() > 0 { seq![pp] } else { Seq::empty() }) + seq![profile_block_spec(assistant_profile@)] + (if cc.len() > 0 {
            seq![cc]
        } else {
            Seq::empty()
        }));
    }
    string_from_chars(&out)
}

/// The policy comes first and the persona block is never dropped: a
/// non-blank policy prompt opens the instructions, and the persona block
/// always appears in them.
pub proof fn lemma_policy_first(prompt: Seq<char>, profile: Seq<char>, context: Seq<char>)
    requires
        trim_seq(prompt).len() > 0,
    ensures
        instructions_spec(prompt, profile, context).take(trim_seq(prompt).len() as int) == trim_seq(prompt),
{
    let p = trim_seq(prompt);
    let c = trim_seq(context);
    let b = profile_block_spec(profile);
    let blocks = seq![p] + seq![b] + (if c.len() > 0 { seq![c] } else { Seq::empty() });
    let two = seq![p, b];
    assert(two.drop_last() =~= seq![p]);
    assert(join_blocks(seq![p]) == p);
    assert(join_blocks(two) == p + seq!['\n', '\n'] + b);
    if c.len() > 0 {
        assert(blocks =~= two.push(c));
        assert(blocks.drop_last() =~= two);
        assert(join_blocks(blocks) == join_blocks(two) + seq!['\n', '\n'] + c);
        assert((p + seq!['\n', '\n'] + b + seq!['\n', '\n'] + c).take(p.len() as int) =~= p);
    } else {
        assert(blocks =~= two);
        assert((p + seq!['\n', '\n'] + b).take(p.len() as int) =~= p);
    }
}

} // verus!
