//! Trimming, splitting and joining text on white space.
use vstd::prelude::*;
use crate::chars::{char_is_whitespace, unicode_whitespace};

verus! {

/// Index of the first character at or after `i` that is not white space (or the end).
pub open spec fn first_non_ws(s: Seq<char>, i: nat) -> nat
    decreases s.len() - i,
{
    if i < s.len() && unicode_whitespace(s[i as int]) { first_non_ws(s, i + 1) } else { i }
}

/// End of the text before `j` once trailing white space is dropped.
pub open spec fn end_non_ws(s: Seq<char>, j: nat) -> nat
    decreases j,
{
    if j > 0 && j <= s.len() && unicode_whitespace(s[j - 1]) { end_non_ws(s, (j - 1) as nat) } else { j }
}

/// The text without leading and trailing white space.
pub open spec fn trim(s: Seq<char>) -> Seq<char> {
    let a = first_non_ws(s, 0);
    let b = end_non_ws(s, s.len());
    if a >= b { Seq::empty() } else { s.subrange(a as int, b as int) }
}

/// The white-space separated words from `i` on, `cur` being the word read so far.
pub open spec fn words_from(s: Seq<char>, i: nat, cur: Seq<char>) -> Seq<Seq<char>>
    decreases s.len() - i,
{
    if i >= s.len() {
        if cur.len() > 0 { seq![cur] } else { Seq::empty() }
    } else if unicode_whitespace(s[i as int]) {
        (if cur.len() > 0 { seq![cur] } else { Seq::empty() }) + words_from(s, i + 1, Seq::empty())
    } else {
        words_from(s, i + 1, cur.push(s[i as int]))
    }
}

/// The white-space separated words of a text, in order, none empty.
pub open spec fn words(s: Seq<char>) -> Seq<Seq<char>> {
    words_from(s, 0, Seq::empty())
}

/// Words joined with a separator between them.
pub open spec fn join(ws: Seq<Seq<char>>, sep: Seq<char>) -> Seq<char>
    decreases ws.len(),
{
    if ws.len() == 0 {
        Seq::empty()
    } else if ws.len() == 1 {
        ws[0]
    } else {
        join(ws.drop_last(), sep) + sep + ws.last()
    }
}

/// Skipping white space stays within the text and never moves back.
pub proof fn lemma_first(s: Seq<char>, i: nat)
    requires
        i <= s.len(),
    ensures
        i <= first_non_ws(s, i) <= s.len(),
    decreases s.len() - i,
{
    if i < s.len() && unicode_whitespace(s[i as int]) {
        lemma_first(s, i + 1);
    }
}

proof fn lemma_end(s: Seq<char>, j: nat)
    requires
        j <= s.len(),
    ensures
        end_non_ws(s, j) <= j,
    decreases j,
{
    if j > 0 && unicode_whitespace(s[j - 1]) {
        lemma_end(s, (j - 1) as nat);
    }
}

/// The text without leading and trailing white space.
pub fn trim_chars(s: &Vec<char>) -> (t: Vec<char>)
    ensures
        t@ == trim(s@),
{
    proof {
        lemma_first(s@, 0);
        lemma_end(s@, s@.len());
    }
    let mut a: usize = 0;
    while a < s.len() && char_is_whitespace(s[a])
        invariant
            a <= s@.len(),
            first_non_ws(s@, 0) == first_non_ws(s@, a as nat),
        decreases s@.len() - a,
    {
        a += 1;
    }
    let mut b: usize = s.len();
    while b > 0 && char_is_whitespace(s[b - 1])
        invariant
            b <= s@.len(),
            end_non_ws(s@, s@.len()) == end_non_ws(s@, b as nat),
        decreases b,
    {
        b -= 1;
    }
    let mut t: Vec<char> = Vec::new();
    if a < b {
        let mut i: usize = a;
        while i < b
            invariant
                a <= i <= b,
                b <= s@.len(),
                t@ == s@.subrange(a as int, i as int),
            decreases b - i,
        {
            t.push(s[i]);
            i += 1;
            assert(t@ =~= s@.subrange(a as int, i as int));
        }
    } else {
        assert(t@ =~= Seq::<char>::empty());
    }
    t
}

/// The white-space separated words of a text.
pub fn split_words(s: &Vec<char>) -> (ws: Vec<Vec<char>>)
    ensures
        ws@.len() == words(s@).len(),
        forall|i: int| 0 <= i < ws@.len() ==> #[trigger] ws@[i]@ == words(s@)[i],
{
    let mut out: Vec<Vec<char>> = Vec::new();
    let ghost mut done: Seq<Seq<char>> = Seq::empty();
    let mut cur: Vec<char> = Vec::new();
    let mut i: usize = 0;
    while i < s.len()
        invariant
            i <= s@.len(),
            out@.len() == done.len(),
            forall|k: int| 0 <= k < done.len() ==> #[trigger] out@[k]@ == done[k],
            words(s@) == done + words_from(s@, i as nat, cur@),
        decreases s@.len() - i,
    {
        if char_is_whitespace(s[i]) {
            if cur.len() > 0 {
                proof {
                    assert(done + words_from(s@, i as nat, cur@) =~= done.push(cur@) + words_from(s@, (i + 1) as nat, Seq::empty()));
                    done = done.push(cur@);
                }
                out.push(cur);
                cur = Vec::new();
            } else {
                assert(done + words_from(s@, i as nat, cur@) =~= done + words_from(s@, (i + 1) as nat, Seq::empty()));
                cur = Vec::new();
            }
            assert(cur@ =~= Seq::<char>::empty());
        } else {
            let ghost old_cur = cur@;
            cur.push(s[i]);
            assert(cur@ == old_cur.push(s@[i as int]));
        }
        i += 1;
        assert(forall|k: int| 0 <= k < done.len() ==> #[trigger] out@[k]@ == done[k]);
    }
    if cur.len() > 0 {
        proof {
            assert(done + words_from(s@, i as nat, cur@) =~= done.push(cur@));
            done = done.push(cur@);
        }
        out.push(cur);
    } else {
        assert(done + words_from(s@, i as nat, cur@) =~= done);
    }
    assert(forall|k: int| 0 <= k < done.len() ==> #[trigger] out@[k]@ == done[k]);
    out
}

/// Words joined with a separator between them.
pub fn join_words(ws: &[Vec<char>], sep: &Vec<char>) -> (t: Vec<char>)
    ensures
        t@ == join(Seq::new(ws@.len(), |i: int| ws@[i]@), sep@),
{
    let ghost all = Seq::new(ws@.len(), |i: int| ws@[i]@);
    let mut t: Vec<char> = Vec::new();
    let mut i: usize = 0;
    while i < ws.len()
        invariant
            i <= ws@.len(),
            all == Seq::new(ws@.len(), |k: int| ws@[k]@),
            t@ == join(all.subrange(0, i as int), sep@),
        decreases ws@.len() - i,
    {
        if i > 0 {
            let mut k: usize = 0;
            let ghost before = t@;
            while k < sep.len()
                invariant
                    k <= sep@.len(),
                    t@ == before + sep@.subrange(0, k as int),
                decreases sep@.len() - k,
            {
                t.push(sep[k]);
                k += 1;
                assert(t@ =~= before + sep@.subrange(0, k as int));
            }
            assert(sep@.subrange(0, sep@.len() as int) =~= sep@);
        }
        let ghost mid = t@;
        let w = &ws[i];
        let mut k: usize = 0;
        while k < w.len()
            invariant
                k <= w@.len(),
                t@ == mid + w@.subrange(0, k as int),
            decreases w@.len() - k,
        {
            t.push(w[k]);
            k += 1;
            assert(t@ =~= mid + w@.subrange(0, k as int));
        }
        assert(w@.subrange(0, w@.len() as int) =~= w@);
        proof {
            let pre = all.subrange(0, i + 1);
            assert(pre.drop_last() =~= all.subrange(0, i as int));
            if i == 0 {
                assert(t@ =~= join(pre, sep@));
            } else {
                assert(t@ =~= join(pre, sep@));
            }
        }
        i += 1;
    }
    assert(all.subrange(0, i as int) =~= all);
    t
}

/// There are no more words than characters.
pub proof fn lemma_words_len(s: Seq<char>, i: nat, cur: Seq<char>)
    requires
        i <= s.len(),
    ensures
        words_from(s, i, cur).len() <= s.len() - i + (if cur.len() > 0 { 1int } else { 0int }),
    decreases s.len() - i,
{
    if i < s.len() {
        if unicode_whitespace(s[i as int]) {
            lemma_words_len(s, i + 1, Seq::empty());
        } else {
            lemma_words_len(s, i + 1, cur.push(s[i as int]));
        }
    }
}

/// Trimming never lengthens a text.
pub proof fn lemma_trim_len(s: Seq<char>)
    ensures
        trim(s).len() <= s.len(),
{
    lemma_first(s, 0);
    lemma_end(s, s.len());
}

} // verus!
