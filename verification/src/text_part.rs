//! Emitted fragments of flattened text and the length bookkeeping over them.
//!
//! All spannable offsets are sums of `characters_count` values, so the
//! arithmetic here (prefix sums, splits, concatenation) is what keeps spans
//! aligned with the final flattened text.

use vstd::prelude::*;

verus! {

/// One fragment of flattened text plus its text-unit length.
pub struct TextPart {
    pub text: Vec<u16>,
    pub characters_count: usize,
}

impl TextPart {
    /// The stored length always equals the fragment's length.
    pub open spec fn wf(self) -> bool {
        self.characters_count == self.text@.len()
    }

    pub fn new(text: Vec<u16>) -> (r: TextPart)
        ensures
            r.text@ == text@,
            r.wf(),
    {
        let characters_count = text.len();
        TextPart { text, characters_count }
    }
}

/// The fragment texts of an accumulator.
pub open spec fn parts_of(s: Seq<TextPart>) -> Seq<Seq<u16>> {
    s.map_values(|p: TextPart| p.text@)
}

pub open spec fn parts_wf(s: Seq<TextPart>) -> bool {
    forall|i: int| 0 <= i < s.len() ==> (#[trigger] s[i]).wf()
}

pub proof fn lemma_parts_of_push(s: Seq<TextPart>, p: TextPart)
    ensures
        parts_of(s.push(p)) == parts_of(s).push(p.text@),
{
    assert(parts_of(s.push(p)) =~= parts_of(s).push(p.text@));
}

/// The summed text-unit length of a sequence of fragments.
pub open spec fn total_len(pv: Seq<Seq<u16>>) -> int
    decreases pv.len(),
{
    if pv.len() == 0 {
        0
    } else {
        total_len(pv.drop_last()) + pv.last().len()
    }
}

pub proof fn lemma_total_len_nonneg(pv: Seq<Seq<u16>>)
    ensures
        total_len(pv) >= 0,
    decreases pv.len(),
{
    if pv.len() > 0 {
        lemma_total_len_nonneg(pv.drop_last());
    }
}

pub proof fn lemma_total_len_push(pv: Seq<Seq<u16>>, x: Seq<u16>)
    ensures
        total_len(pv.push(x)) == total_len(pv) + x.len(),
{
    assert(pv.push(x).drop_last() =~= pv);
}

/// A longer prefix of fragments never sums to less.
pub proof fn lemma_total_len_mono(pv: Seq<Seq<u16>>, a: int, k: int, b: int)
    requires
        0 <= a <= k <= b <= pv.len(),
    ensures
        total_len(pv.subrange(a, k)) <= total_len(pv.subrange(a, b)),
    decreases b - k,
{
    if k < b {
        assert(pv.subrange(a, k + 1).drop_last() =~= pv.subrange(a, k));
        assert(pv.subrange(a, k + 1).last() == pv[k]);
        lemma_total_len_mono(pv, a, k + 1, b);
    } else {
        assert(pv.subrange(a, k) =~= pv.subrange(a, b));
    }
}

/// The fragments before `k` and from `k` on sum to the whole.
pub proof fn lemma_total_len_split(pv: Seq<Seq<u16>>, k: int)
    requires
        0 <= k <= pv.len(),
    ensures
        total_len(pv.subrange(0, k)) + total_len(pv.subrange(k, pv.len() as int)) == total_len(pv),
    decreases pv.len(),
{
    if k == pv.len() {
        assert(pv.subrange(0, k) =~= pv);
    } else {
        let n = pv.len() as int;
        assert(pv.subrange(0, k) =~= pv.drop_last().subrange(0, k));
        assert(pv.subrange(k, n).drop_last() =~= pv.drop_last().subrange(k, n - 1));
        assert(pv.subrange(k, n).last() == pv.last());
        lemma_total_len_split(pv.drop_last(), k);
    }
}

/// The summed `characters_count` of `parts[from..to]`, or `None` when the sum
/// does not fit a `usize`.
#[verifier::loop_isolation(false)]
pub fn sum_characters(parts: &Vec<TextPart>, from: usize, to: usize) -> (r: Option<usize>)
    requires
        from <= to <= parts@.len(),
        parts_wf(parts@),
    ensures
        match r {
            Some(n) => n == total_len(parts_of(parts@).subrange(from as int, to as int)),
            None => total_len(parts_of(parts@).subrange(from as int, to as int)) > usize::MAX,
        },
{
    let ghost pv = parts_of(parts@);
    let mut acc: usize = 0;
    let mut i: usize = from;
    while i < to
        invariant
            from <= i <= to,
            acc == total_len(pv.subrange(from as int, i as int)),
        decreases to - i,
    {
        proof {
            assert(pv.subrange(from as int, i + 1).drop_last() =~= pv.subrange(
                from as int,
                i as int,
            ));
            assert(pv.subrange(from as int, i + 1).last() == pv[i as int]);
        }
        acc = match acc.checked_add(parts[i].characters_count) {
            Some(a) => a,
            None => {
                proof {
                    lemma_total_len_mono(pv, from as int, i + 1, to as int);
                }
                return None;
            }
        };
        i += 1;
    }
    Some(acc)
}

/// The concatenation of a sequence of fragments.
pub open spec fn flat_of(pv: Seq<Seq<u16>>) -> Seq<u16>
    decreases pv.len(),
{
    if pv.len() == 0 {
        Seq::empty()
    } else {
        flat_of(pv.drop_last()) + pv.last()
    }
}

/// Concatenated length is summed length.
pub proof fn lemma_flat_len(pv: Seq<Seq<u16>>)
    ensures
        flat_of(pv).len() == total_len(pv),
    decreases pv.len(),
{
    if pv.len() > 0 {
        lemma_flat_len(pv.drop_last());
    }
}

/// Copies the text of `parts[from..to]` into one flat vector.
#[verifier::loop_isolation(false)]
pub fn concat_range(parts: &Vec<TextPart>, from: usize, to: usize) -> (r: Vec<u16>)
    requires
        from <= to <= parts@.len(),
    ensures
        r@ == flat_of(parts_of(parts@).subrange(from as int, to as int)),
{
    let ghost pv = parts_of(parts@);
    let mut r: Vec<u16> = Vec::new();
    let mut i: usize = from;
    proof {
        assert(pv.subrange(from as int, from as int) =~= Seq::<Seq<u16>>::empty());
        assert(r@ =~= flat_of(pv.subrange(from as int, from as int)));
    }
    while i < to
        invariant
            from <= i <= to,
            r@ == flat_of(pv.subrange(from as int, i as int)),
        decreases to - i,
    {
        let part_text = &parts[i].text;
        let mut j: usize = 0;
        while j < part_text.len()
            invariant
                from <= i < to,
                0 <= j <= part_text@.len(),
                part_text@ == pv[i as int],
                r@ == flat_of(pv.subrange(from as int, i as int)) + part_text@.subrange(
                    0,
                    j as int,
                ),
            decreases part_text.len() - j,
        {
            r.push(part_text[j]);
            proof {
                assert(r@ =~= flat_of(pv.subrange(from as int, i as int)) + part_text@.subrange(
                    0,
                    j + 1,
                ));
            }
            j += 1;
        }
        proof {
            assert(pv.subrange(from as int, i + 1).drop_last() =~= pv.subrange(
                from as int,
                i as int,
            ));
            assert(pv.subrange(from as int, i + 1).last() == pv[i as int]);
            assert(part_text@.subrange(0, j as int) =~= part_text@);
            assert(r@ =~= flat_of(pv.subrange(from as int, i + 1)));
        }
        i += 1;
    }
    r
}

/// The whole flattened text of an accumulator.
pub fn concat_text_parts(parts: &Vec<TextPart>) -> (r: Vec<u16>)
    ensures
        r@ == flat_of(parts_of(parts@)),
{
    let r = concat_range(parts, 0, parts.len());
    proof {
        assert(parts_of(parts@).subrange(0, parts@.len() as int) =~= parts_of(parts@));
    }
    r
}

} // verus!
