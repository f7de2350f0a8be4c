//! The order of texts: by code point, a prefix first.

use crate::text::chars_of;
use crate::text::texts;
use vstd::prelude::*;
use vstd::seq_lib::to_multiset_build;
use vstd::seq_lib::to_multiset_insert;

verus! {

/// How two texts stand to each other.
#[derive(Clone, Copy, Debug, PartialEq, Eq, Structural)]
pub enum Rank {
    Before,
    Same,
    After,
}

impl Rank {
    /// The rank seen from the other side.
    pub open spec fn flipped(self) -> Rank {
        match self {
            Rank::Before => Rank::After,
            Rank::Same => Rank::Same,
            Rank::After => Rank::Before,
        }
    }

    /// This rank, or `next` where this one decides nothing.
    pub open spec fn or(self, next: Rank) -> Rank {
        if self is Same {
            next
        } else {
            self
        }
    }
}

/// The order of two texts.
pub open spec fn text_rank(a: Seq<char>, b: Seq<char>) -> Rank
    decreases a.len(),
{
    if a.len() == 0 {
        if b.len() == 0 {
            Rank::Same
        } else {
            Rank::Before
        }
    } else if b.len() == 0 {
        Rank::After
    } else if a[0] < b[0] {
        Rank::Before
    } else if a[0] > b[0] {
        Rank::After
    } else {
        text_rank(a.drop_first(), b.drop_first())
    }
}

/// Texts rank the same only if they are equal, and the rank turns round with
/// its arguments.
pub proof fn lemma_text_rank(a: Seq<char>, b: Seq<char>)
    ensures
        text_rank(a, b) is Same <==> a == b,
        text_rank(b, a) == text_rank(a, b).flipped(),
    decreases a.len(),
{
    if a.len() > 0 && b.len() > 0 {
        lemma_text_rank(a.drop_first(), b.drop_first());
        if a[0] == b[0] && a.drop_first() == b.drop_first() {
            assert(a =~= seq![a[0]] + a.drop_first());
            assert(b =~= seq![b[0]] + b.drop_first());
        }
    } else if a.len() == 0 && b.len() == 0 {
        assert(a =~= b);
    }
}

/// The order is transitive.
pub proof fn lemma_text_rank_transitive(a: Seq<char>, b: Seq<char>, c: Seq<char>)
    requires
        text_rank(a, b) is Before,
        text_rank(b, c) is Before,
    ensures
        text_rank(a, c) is Before,
    decreases a.len(),
{
    if a.len() > 0 && b.len() > 0 && c.len() > 0 && a[0] == b[0] && b[0] == c[0] {
        lemma_text_rank_transitive(a.drop_first(), b.drop_first(), c.drop_first());
    }
}

/// The order of two texts.
pub fn rank_texts(a: &str, b: &str) -> (r: Rank)
    ensures
        r == text_rank(a@, b@),
{
    let x = chars_of(a);
    let y = chars_of(b);
    let mut i: usize = 0;
    assert(x@.skip(0) == a@);
    assert(y@.skip(0) == b@);
    loop
        invariant
            i <= x.len(),
            i <= y.len(),
            text_rank(a@, b@) == text_rank(x@.skip(i as int), y@.skip(i as int)),
        decreases x.len() - i,
    {
        if i == x.len() {
            return if i == y.len() {
                Rank::Same
            } else {
                Rank::Before
            };
        }
        if i == y.len() {
            return Rank::After;
        }
        if x[i] < y[i] {
            return Rank::Before;
        }
        if x[i] > y[i] {
            return Rank::After;
        }
        assert(x@.skip(i as int).drop_first() =~= x@.skip(i + 1));
        assert(y@.skip(i as int).drop_first() =~= y@.skip(i + 1));
        i = i + 1;
    }
}

/// Whether texts stand in order.
pub open spec fn in_order(s: Seq<Seq<char>>) -> bool {
    forall|i: int, j: int| 0 <= i < j < s.len() ==> !(text_rank(#[trigger] s[i], #[trigger] s[j]) is After)
}

/// Sort texts.
pub fn sort_texts(v: Vec<String>) -> (r: Vec<String>)
    ensures
        in_order(texts(r@)),
        texts(r@).to_multiset() == texts(v@).to_multiset(),
{
    let mut rest = v;
    let mut r: Vec<String> = Vec::new();
    proof {
        assert(texts(r@) =~= Seq::<Seq<char>>::empty());
        texts(v@).to_multiset_ensures();
        texts(r@).to_multiset_ensures();
    }
    while rest.len() > 0
        invariant
            in_order(texts(r@)),
            texts(r@).to_multiset().add(texts(rest@).to_multiset()) == texts(v@).to_multiset(),
        decreases rest.len(),
    {
        let ghost before = texts(rest@);
        let ghost sorted = texts(r@);
        let x = match rest.pop() {
            Some(x) => x,
            None => return r,
        };
        let mut i: usize = 0;
        while i < r.len() && rank_texts(r[i].as_str(), x.as_str()) == Rank::Before
            invariant
                i <= r.len(),
                texts(r@) == sorted,
                forall|k: int| 0 <= k < i ==> text_rank(#[trigger] sorted[k], x@) is Before,
            decreases r.len() - i,
        {
            i = i + 1;
        }
        r.insert(i, x);
        proof {
            let now = texts(r@);
            assert(now =~= sorted.insert(i as int, x@));
            lemma_insert_in_order(sorted, i as int, x@);
            assert(texts(rest@) =~= before.drop_last());
            assert(before =~= texts(rest@).push(x@));
            to_multiset_insert(sorted, i as int, x@);
            to_multiset_build(texts(rest@), x@);
            assert(before.to_multiset() =~= texts(rest@).to_multiset().insert(x@));
            assert(now.to_multiset().add(texts(rest@).to_multiset()) =~= sorted.to_multiset().add(
                before.to_multiset(),
            ));
        }
    }
    proof {
        assert(texts(rest@) =~= Seq::<Seq<char>>::empty());
        texts(rest@).to_multiset_ensures();
        assert(texts(r@).to_multiset().add(texts(rest@).to_multiset()) =~= texts(r@).to_multiset());
    }
    r
}

/// A text put in behind the last one that comes before it keeps the order.
proof fn lemma_insert_in_order(s: Seq<Seq<char>>, i: int, x: Seq<char>)
    requires
        in_order(s),
        0 <= i <= s.len(),
        forall|k: int| 0 <= k < i ==> text_rank(#[trigger] s[k], x) is Before,
        i < s.len() ==> !(text_rank(s[i], x) is Before),
    ensures
        in_order(s.insert(i, x)),
{
    let t = s.insert(i, x);
    assert forall|a: int, b: int| 0 <= a < b < t.len() implies !(text_rank(
        #[trigger] t[a],
        #[trigger] t[b],
    ) is After) by {
        if b < i {
            assert(t[a] == s[a] && t[b] == s[b]);
        } else if b == i {
            assert(t[a] == s[a]);
            assert(text_rank(s[a], x) is Before);
        } else if a < i {
            assert(t[a] == s[a] && t[b] == s[b - 1]);
        } else if a == i {
            assert(t[b] == s[b - 1]);
            lemma_text_rank(s[i], x);
            lemma_text_rank(x, s[b - 1]);
            if text_rank(x, s[b - 1]) is After {
                // s[b - 1] comes before x, and s[i] does not come after it.
                assert(text_rank(s[b - 1], x) is Before);
                if b - 1 > i {
                    assert(!(text_rank(s[i], s[b - 1]) is After));
                    lemma_text_rank(s[i], s[b - 1]);
                    if text_rank(s[i], s[b - 1]) is Before {
                        lemma_text_rank_transitive(s[i], s[b - 1], x);
                    }
                }
            }
        } else {
            assert(t[a] == s[a - 1] && t[b] == s[b - 1]);
        }
    }
}

// ---------------------------------------------------------------------------
// lists of numbers
// ---------------------------------------------------------------------------

/// The order of two lists of numbers: by the first that differ, a prefix first.
pub open spec fn numbers_rank(a: Seq<u32>, b: Seq<u32>) -> Rank
    decreases a.len(),
{
    if a.len() == 0 {
        if b.len() == 0 {
            Rank::Same
        } else {
            Rank::Before
        }
    } else if b.len() == 0 {
        Rank::After
    } else if a[0] < b[0] {
        Rank::Before
    } else if a[0] > b[0] {
        Rank::After
    } else {
        numbers_rank(a.drop_first(), b.drop_first())
    }
}

/// Lists rank the same only if they are equal, and the rank turns round with its
/// arguments.
pub proof fn lemma_numbers_rank(a: Seq<u32>, b: Seq<u32>)
    ensures
        numbers_rank(a, b) is Same <==> a == b,
        numbers_rank(b, a) == numbers_rank(a, b).flipped(),
    decreases a.len(),
{
    if a.len() > 0 && b.len() > 0 {
        lemma_numbers_rank(a.drop_first(), b.drop_first());
        if a[0] == b[0] && a.drop_first() == b.drop_first() {
            assert(a =~= seq![a[0]] + a.drop_first());
            assert(b =~= seq![b[0]] + b.drop_first());
        }
    } else if a.len() == 0 && b.len() == 0 {
        assert(a =~= b);
    }
}

/// The order of lists is transitive.
pub proof fn lemma_numbers_rank_transitive(a: Seq<u32>, b: Seq<u32>, c: Seq<u32>)
    requires
        numbers_rank(a, b) is Before,
        numbers_rank(b, c) is Before,
    ensures
        numbers_rank(a, c) is Before,
    decreases a.len(),
{
    if a.len() > 0 && b.len() > 0 && c.len() > 0 && a[0] == b[0] && b[0] == c[0] {
        lemma_numbers_rank_transitive(a.drop_first(), b.drop_first(), c.drop_first());
    }
}

/// The order of two lists of numbers.
pub fn rank_numbers(a: &Vec<u32>, b: &Vec<u32>) -> (r: Rank)
    ensures
        r == numbers_rank(a@, b@),
{
    let mut i: usize = 0;
    assert(a@.skip(0) =~= a@);
    assert(b@.skip(0) =~= b@);
    loop
        invariant
            i <= a.len(),
            i <= b.len(),
            numbers_rank(a@, b@) == numbers_rank(a@.skip(i as int), b@.skip(i as int)),
        decreases a.len() - i,
    {
        if i == a.len() {
            return if i == b.len() {
                Rank::Same
            } else {
                Rank::Before
            };
        }
        if i == b.len() {
            return Rank::After;
        }
        if a[i] < b[i] {
            return Rank::Before;
        }
        if a[i] > b[i] {
            return Rank::After;
        }
        assert(a@.skip(i as int).drop_first() =~= a@.skip(i + 1));
        assert(b@.skip(i as int).drop_first() =~= b@.skip(i + 1));
        i = i + 1;
    }
}

/// Texts of which each does not come after the next.
pub proof fn lemma_text_rank_chain(a: Seq<char>, b: Seq<char>, c: Seq<char>)
    requires
        !(text_rank(a, b) is After),
        !(text_rank(b, c) is After),
    ensures
        !(text_rank(a, c) is After),
        text_rank(a, c) is Same ==> text_rank(a, b) is Same && text_rank(b, c) is Same,
{
    lemma_text_rank(a, b);
    lemma_text_rank(b, c);
    lemma_text_rank(a, c);
    if text_rank(a, b) is Before && text_rank(b, c) is Before {
        lemma_text_rank_transitive(a, b, c);
    }
}

/// Lists of which each does not come after the next.
pub proof fn lemma_numbers_rank_chain(a: Seq<u32>, b: Seq<u32>, c: Seq<u32>)
    requires
        !(numbers_rank(a, b) is After),
        !(numbers_rank(b, c) is After),
    ensures
        !(numbers_rank(a, c) is After),
        numbers_rank(a, c) is Same ==> numbers_rank(a, b) is Same && numbers_rank(b, c) is Same,
{
    lemma_numbers_rank(a, b);
    lemma_numbers_rank(b, c);
    lemma_numbers_rank(a, c);
    if numbers_rank(a, b) is Before && numbers_rank(b, c) is Before {
        lemma_numbers_rank_transitive(a, b, c);
    }
}

} // verus!
