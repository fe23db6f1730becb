use std::collections::hash_map::DefaultHasher;
use std::hash::Hasher;
use vstd::prelude::*;
use vstd::std_specs::hash::DefaultHasherAdditionalSpecFns;

use crate::text::chars_of;

verus! {

/// Whether the cursor is inside a tag after reading `c`, given whether it was before.
pub open spec fn in_tag_after(c: char, in_tag: bool) -> bool {
    if c == '<' {
        true
    } else if c == '>' {
        false
    } else {
        in_tag
    }
}

/// The characters of `s` read inside a tag (an opening `<` counts, a closing `>`
/// does not), starting in the given state.
pub open spec fn tag_chars_from(s: Seq<char>, in_tag: bool) -> Seq<char>
    decreases s.len(),
{
    if s.len() == 0 {
        Seq::empty()
    } else {
        let t = in_tag_after(s[0], in_tag);
        let rest = tag_chars_from(s.drop_first(), t);
        if t {
            seq![s[0]] + rest
        } else {
            rest
        }
    }
}

/// The tag skeleton of a body: its in-tag characters, in order.
pub open spec fn tag_skeleton(s: Seq<char>) -> Seq<char> {
    tag_chars_from(s, false)
}

/// The four bytes of a character's scalar value, least significant first.
pub open spec fn char_bytes(c: char) -> Seq<u8> {
    let v = c as u32;
    seq![(v & 0xff) as u8, ((v >> 8u32) & 0xff) as u8, ((v >> 16u32) & 0xff) as u8, (v >> 24u32) as u8]
}

/// What the hasher is fed for a skeleton: one write per character.
pub open spec fn skeleton_writes(t: Seq<char>) -> Seq<Seq<u8>>
    decreases t.len(),
{
    if t.len() == 0 {
        Seq::empty()
    } else {
        skeleton_writes(t.drop_last()).push(char_bytes(t.last()))
    }
}

/// The structural hash of a body: the std `DefaultHasher` fed its skeleton.
pub open spec fn skeleton_hash(s: Seq<char>) -> u64 {
    DefaultHasher::spec_finish(skeleton_writes(tag_skeleton(s)))
}

fn char_le_bytes(c: char) -> (r: Vec<u8>)
    ensures
        r@ == char_bytes(c),
{
    let v: u32 = c as u32;
    vec![(v & 0xff) as u8, ((v >> 8u32) & 0xff) as u8, ((v >> 16u32) & 0xff) as u8, (v >> 24u32) as u8]
}

proof fn lemma_tag_chars_step(s: Seq<char>, i: int, in_tag: bool)
    requires
        0 <= i < s.len(),
    ensures
        tag_chars_from(s.skip(i), in_tag) == (if in_tag_after(s[i], in_tag) {
            seq![s[i]]
        } else {
            Seq::<char>::empty()
        }) + tag_chars_from(s.skip(i + 1), in_tag_after(s[i], in_tag)),
{
    assert(s.skip(i).drop_first() =~= s.skip(i + 1));
    let t = in_tag_after(s[i], in_tag);
    if !t {
        assert(Seq::<char>::empty() + tag_chars_from(s.skip(i + 1), t) =~= tag_chars_from(
            s.skip(i + 1),
            t,
        ));
    }
}

/// Marker type for the structural fingerprint of a response body.
pub struct StructuralHasher;

impl StructuralHasher {
    /// Hashes the markup skeleton of `html`: the characters between `<` and `>`
    /// are fed in order to a `DefaultHasher`; text outside tags is ignored.
    pub fn hash(html: &str) -> (r: u64)
        ensures
            r == skeleton_hash(html@),
    {
        let chars = chars_of(html);
        let mut hasher = DefaultHasher::new();
        let mut in_tag = false;
        let ghost mut fed: Seq<char> = Seq::empty();
        let mut i: usize = 0;
        proof {
            assert(html@.skip(0) =~= html@);
            assert(Seq::<char>::empty() + tag_chars_from(html@, false) =~= tag_chars_from(
                html@,
                false,
            ));
        }
        while i < chars.len()
            invariant
                chars@ == html@,
                i <= chars@.len(),
                hasher@ == skeleton_writes(fed),
                tag_skeleton(html@) == fed + tag_chars_from(html@.skip(i as int), in_tag),
            decreases chars@.len() - i,
        {
            let c = chars[i];
            proof {
                lemma_tag_chars_step(html@, i as int, in_tag);
            }
            if c == '<' {
                in_tag = true;
            }
            if c == '>' {
                in_tag = false;
            }
            if in_tag {
                let bytes = char_le_bytes(c);
                hasher.write(bytes.as_slice());
                proof {
                    let nf = fed.push(c);
                    assert(nf.drop_last() =~= fed);
                    assert(fed + (seq![c] + tag_chars_from(html@.skip(i + 1), in_tag)) =~= nf
                        + tag_chars_from(html@.skip(i + 1), in_tag));
                    fed = nf;
                }
            }
            i = i + 1;
        }
        proof {
            assert(html@.skip(i as int) =~= Seq::<char>::empty());
            assert(fed + Seq::<char>::empty() =~= fed);
        }
        hasher.finish()
    }
}

/// Bodies with the same tag skeleton hash alike, whatever text lies between
/// their tags.
pub proof fn lemma_same_skeleton_same_hash(a: Seq<char>, b: Seq<char>)
    requires
        tag_skeleton(a) == tag_skeleton(b),
    ensures
        skeleton_hash(a) == skeleton_hash(b),
{
}

/// What comparing a success body's hash with the baseline showed.
#[derive(Clone, Copy, Debug, PartialEq, Eq, Structural)]
pub enum DriftSignal {
    /// No baseline was stored yet; this hash became the baseline.
    Learned,
    /// The hash equals the stored baseline.
    Unchanged,
    /// The hash differs from the stored baseline.
    Drifted,
}

/// The structural baseline of a run: the hash of the first successful body,
/// set once and never overwritten.
pub struct Baseline {
    pub hash: Option<u64>,
}

impl Baseline {
    pub fn new() -> (r: Baseline)
        ensures
            r.hash.is_none(),
    {
        Baseline { hash: None }
    }

    /// Records the hash of a body that was classified a success, and says how
    /// it compares with the baseline.
    pub fn observe(&mut self, h: u64) -> (r: DriftSignal)
        ensures
            old(self).hash.is_none() ==> final(self).hash == Some(h) && r == DriftSignal::Learned,
            old(self).hash.is_some() ==> final(self).hash == old(self).hash,
            old(self).hash == Some(h) ==> r == DriftSignal::Unchanged,
            old(self).hash.is_some() && old(self).hash != Some(h) ==> r == DriftSignal::Drifted,
    {
        match self.hash {
            None => {
                self.hash = Some(h);
                DriftSignal::Learned
            },
            Some(b) => {
                if b == h {
                    DriftSignal::Unchanged
                } else {
                    DriftSignal::Drifted
                }
            },
        }
    }
}

} // verus!
