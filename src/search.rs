//! Fuzzy search over the shortcuts' names.
//!
//! Each name is compared under three keys: as written, in lowercase, and
//! with each Chinese character spelled in plain pinyin. The similarity
//! scoring itself is done by the caller; the scores come back here as the
//! bit patterns of non-negative IEEE-754 doubles, whose order as unsigned
//! integers is their numeric order. The ranking keeps the shortcuts that
//! score above one half, best first, ties in list order.
use vstd::prelude::*;

verus! {

/// The bit pattern of the double 0.5, the least score a match must beat.
pub const SCORE_THRESHOLD: u64 = 0x3FE0_0000_0000_0000;

/// The lowercase form of a string, as `str::to_lowercase` gives it.
pub uninterp spec fn lower_of(s: Seq<char>) -> Seq<char>;

/// The plain (toneless) pinyin of a character, when it has one.
pub uninterp spec fn plain_pinyin_of(c: char) -> Option<Seq<char>>;

/// Relies on `str::to_lowercase`: the result depends on the characters
/// alone, and the empty string stays empty.
#[verifier::external_body]
fn lowercase(s: &str) -> (r: String)
    ensures
        r@ == lower_of(s@),
        s@.len() == 0 ==> r@.len() == 0,
{
    s.to_lowercase()
}

/// Relies on `pinyin::ToPinyin` for `char` and `Pinyin::plain`: the plain
/// pinyin of a character that has one, none for any other character.
#[verifier::external_body]
fn plain_pinyin(c: char) -> (r: Option<String>)
    ensures
        match r {
            Some(p) => plain_pinyin_of(c) == Some(p@),
            None => plain_pinyin_of(c) is None,
        },
{
    match pinyin::ToPinyin::to_pinyin(&c) {
        Some(p) => Some(p.plain().to_string()),
        None => None,
    }
}

/// A name with each character that has a pinyin spelling replaced by it.
pub open spec fn pinyin_key(s: Seq<char>) -> Seq<char>
    decreases s.len(),
{
    if s.len() == 0 {
        Seq::empty()
    } else {
        pinyin_key(s.drop_last()) + match plain_pinyin_of(s.last()) {
            Some(p) => p,
            None => seq![s.last()],
        }
    }
}

/// The name spelled in plain pinyin where it can be.
pub fn pinyin_spelling(name: &str) -> (r: String)
    ensures
        r@ == pinyin_key(name@),
{
    let n = name.unicode_len();
    let mut r = String::new();
    let mut i: usize = 0;
    while i < n
        invariant
            n == name@.len(),
            i <= n,
            r@ == pinyin_key(name@.subrange(0, i as int)),
        decreases n - i,
    {
        let c = name.get_char(i);
        proof {
            let post = name@.subrange(0, i as int + 1);
            assert(post.drop_last() =~= name@.subrange(0, i as int));
            assert(post.last() == c);
        }
        match plain_pinyin(c) {
            Some(p) => r.append(p.as_str()),
            None => {
                let one = name.substring_char(i, i + 1);
                assert(one@ =~= seq![c]);
                r.append(one);
            },
        }
        i = i + 1;
    }
    assert(name@.subrange(0, n as int) =~= name@);
    r
}

/// The keys a name is compared under: as written, in lowercase, in pinyin.
pub fn search_keys(name: &str) -> (r: Vec<String>)
    ensures
        r@.len() == 3,
        r@[0]@ == name@,
        r@[1]@ == lower_of(name@),
        r@[2]@ == pinyin_key(name@),
{
    let mut r: Vec<String> = Vec::new();
    r.push(String::from_str(name));
    r.push(lowercase(name));
    r.push(pinyin_spelling(name));
    r
}

/// The largest of the scores, or the score of 0.0 when there are none.
pub open spec fn best_of(scores: Seq<u64>) -> u64
    decreases scores.len(),
{
    if scores.len() == 0 {
        0
    } else {
        let rest = best_of(scores.drop_last());
        if scores.last() > rest {
            scores.last()
        } else {
            rest
        }
    }
}

/// A shortcut's score: the best score over all keys of all its names.
pub fn best_score(scores: &Vec<u64>) -> (r: u64)
    ensures
        r == best_of(scores@),
{
    let mut best: u64 = 0;
    let mut i: usize = 0;
    assert(scores@.subrange(0, 0) =~= Seq::<u64>::empty());
    while i < scores.len()
        invariant
            i <= scores.len(),
            best == best_of(scores@.subrange(0, i as int)),
        decreases scores.len() - i,
    {
        proof {
            let post = scores@.subrange(0, i as int + 1);
            assert(post.drop_last() =~= scores@.subrange(0, i as int));
        }
        if scores[i] > best {
            best = scores[i];
        }
        i = i + 1;
    }
    assert(scores@.subrange(0, scores.len() as int) =~= scores@);
    best
}

/// Shortcut `i` scores above the threshold.
pub open spec fn qualifies(scores: Seq<u64>, i: int) -> bool {
    scores[i] > SCORE_THRESHOLD
}

/// `r` lists the shortcuts among the first `n` that qualify, each once,
/// best first, equal scores in list order.
pub open spec fn ranks_prefix(scores: Seq<u64>, r: Seq<usize>, n: int) -> bool {
    &&& r.no_duplicates()
    &&& forall|k: int|
        0 <= k < r.len() ==> (#[trigger] r[k]) < n && qualifies(scores, r[k] as int)
    &&& forall|i: int| 0 <= i < n && qualifies(scores, i) ==> r.contains(i as usize)
    &&& forall|a: int, b: int|
        0 <= a < b < r.len() ==> scores[#[trigger] r[a] as int] > scores[#[trigger] r[b] as int]
            || (scores[r[a] as int] == scores[r[b] as int] && r[a] < r[b])
}

/// `r` ranks all the shortcuts: each one that scores above the threshold
/// appears once, best first, equal scores in list order.
pub open spec fn is_ranking(scores: Seq<u64>, r: Seq<usize>) -> bool {
    ranks_prefix(scores, r, scores.len() as int)
}

proof fn lemma_insert_keeps_ranking(scores: Seq<u64>, r: Seq<usize>, i: int, p: int)
    requires
        ranks_prefix(scores, r, i),
        0 <= i < scores.len(),
        i < usize::MAX,
        qualifies(scores, i),
        0 <= p <= r.len(),
        forall|k: int| 0 <= k < p ==> scores[#[trigger] r[k] as int] >= scores[i],
        p == r.len() || scores[r[p] as int] < scores[i],
    ensures
        ranks_prefix(scores, r.insert(p, i as usize), i + 1),
{
    let s = scores[i];
    let nr = r.insert(p, i as usize);
    assert forall|k: int| p <= k < r.len() implies scores[#[trigger] r[k] as int] < s by {
        if k > p {
            assert(scores[r[p] as int] >= scores[r[k] as int]);
        }
    }
    assert forall|k: int| 0 <= k < nr.len() implies (#[trigger] nr[k]) < i + 1 && qualifies(
        scores,
        nr[k] as int,
    ) by {
        if k < p {
            assert(nr[k] == r[k]);
        } else if k > p {
            assert(nr[k] == r[k - 1]);
        }
    }
    assert forall|j: int| 0 <= j < i + 1 && qualifies(scores, j) implies nr.contains(
        j as usize,
    ) by {
        if j == i {
            assert(nr[p] == i);
        } else {
            assert(r.contains(j as usize));
            let k = choose|k: int| 0 <= k < r.len() && r[k] == j as usize;
            if k < p {
                assert(nr[k] == r[k]);
            } else {
                assert(nr[k + 1] == r[k]);
            }
        }
    }
    assert forall|a: int, b: int| 0 <= a < b < nr.len() implies scores[#[trigger] nr[a] as int]
        > scores[#[trigger] nr[b] as int] || (scores[nr[a] as int] == scores[nr[b] as int]
        && nr[a] < nr[b]) by {
        if a < p && b < p {
            assert(nr[a] == r[a] && nr[b] == r[b]);
        } else if a < p && b == p {
            assert(nr[a] == r[a]);
            assert(r[a] < i);
        } else if a < p && b > p {
            assert(nr[a] == r[a] && nr[b] == r[b - 1]);
        } else if a == p {
            assert(nr[b] == r[b - 1]);
        } else {
            assert(nr[a] == r[a - 1] && nr[b] == r[b - 1]);
        }
    }
    assert forall|a: int, b: int| 0 <= a < nr.len() && 0 <= b < nr.len() && a != b implies nr[a]
        != nr[b] by {
        let a1 = if a < p {
            a
        } else {
            a - 1
        };
        let b1 = if b < p {
            b
        } else {
            b - 1
        };
        if a != p && b != p {
            assert(nr[a] == r[a1] && nr[b] == r[b1]);
        } else if a == p {
            assert(nr[b] == r[b1]);
            assert(r[b1] < i);
        } else {
            assert(nr[a] == r[a1]);
            assert(r[a1] < i);
        }
    }
}

/// The search result: the indices of the shortcuts that score above the
/// threshold, best first, equal scores in list order.
pub fn rank_by_score(scores: &Vec<u64>) -> (r: Vec<usize>)
    ensures
        is_ranking(scores@, r@),
{
    let mut r: Vec<usize> = Vec::new();
    let mut i: usize = 0;
    while i < scores.len()
        invariant
            i <= scores.len(),
            ranks_prefix(scores@, r@, i as int),
        decreases scores.len() - i,
    {
        let s = scores[i];
        if s > SCORE_THRESHOLD {
            let mut p: usize = 0;
            while p < r.len() && scores[r[p]] >= s
                invariant
                    p <= r.len(),
                    ranks_prefix(scores@, r@, i as int),
                    i < scores.len(),
                    s == scores@[i as int],
                    forall|k: int| 0 <= k < p ==> scores@[#[trigger] r@[k] as int] >= s,
                decreases r.len() - p,
            {
                p = p + 1;
            }
            proof {
                lemma_insert_keeps_ranking(scores@, r@, i as int, p as int);
            }
            r.insert(p, i);
        } else {
            assert(ranks_prefix(scores@, r@, i as int + 1));
        }
        i = i + 1;
    }
    r
}

} // verus!
