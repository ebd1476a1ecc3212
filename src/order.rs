use vstd::prelude::*;

use crate::text::chars_of;

verus! {

/// Whether `a` comes before `b` when compared character by character, a
/// proper prefix first. On UTF-8 text this is the order of `String`.
pub open spec fn lex_lt(a: Seq<char>, b: Seq<char>) -> bool
    decreases a.len(),
{
    if a.len() == 0 {
        b.len() > 0
    } else if b.len() == 0 {
        false
    } else if a[0] != b[0] {
        (a[0] as u32) < (b[0] as u32)
    } else {
        lex_lt(a.skip(1), b.skip(1))
    }
}

proof fn lemma_char_code_injective(x: char, y: char)
    requires
        x != y,
    ensures
        (x as u32) != (y as u32),
{
    if (x as u32) == (y as u32) {
        assert(x == y);
    }
}

/// Of two texts, exactly one comes first, or they are equal.
pub proof fn lemma_lex_trichotomy(a: Seq<char>, b: Seq<char>)
    ensures
        lex_lt(a, b) || a == b || lex_lt(b, a),
        !(lex_lt(a, b) && lex_lt(b, a)),
        !(lex_lt(a, b) && a == b),
    decreases a.len(),
{
    if a.len() > 0 && b.len() > 0 {
        if a[0] == b[0] {
            lemma_lex_trichotomy(a.skip(1), b.skip(1));
            assert(a =~= seq![a[0]] + a.skip(1));
            assert(b =~= seq![b[0]] + b.skip(1));
        } else {
            lemma_char_code_injective(a[0], b[0]);
        }
    } else if a.len() == 0 && b.len() == 0 {
        assert(a =~= b);
    }
}

/// The character order is transitive.
pub proof fn lemma_lex_transitive(a: Seq<char>, b: Seq<char>, c: Seq<char>)
    requires
        lex_lt(a, b),
        lex_lt(b, c),
    ensures
        lex_lt(a, c),
    decreases a.len(),
{
    if a.len() > 0 && b.len() > 0 && c.len() > 0 && a[0] == b[0] && b[0] == c[0] {
        lemma_lex_transitive(a.skip(1), b.skip(1), c.skip(1));
    }
}

/// Whether item `a` is shown before item `b` when the items with keys
/// `keys` are listed newest first: the greater key first and, for equal
/// keys, the later item first.
pub open spec fn goes_before(keys: Seq<String>, a: int, b: int) -> bool {
    lex_lt(keys[b]@, keys[a]@) || (keys[a]@ == keys[b]@ && a > b)
}

/// Whether `a` comes before `b` character by character.
fn lex_less(a: &Vec<char>, b: &Vec<char>) -> (r: bool)
    ensures
        r == lex_lt(a@, b@),
{
    let mut i: usize = 0;
    assert(a@.skip(0) =~= a@);
    assert(b@.skip(0) =~= b@);
    while i < a.len() && i < b.len()
        invariant
            i <= a.len(),
            i <= b.len(),
            lex_lt(a@, b@) == lex_lt(a@.skip(i as int), b@.skip(i as int)),
        decreases a.len() - i,
    {
        assert(a@.skip(i as int)[0] == a@[i as int]);
        assert(b@.skip(i as int)[0] == b@[i as int]);
        if a[i] != b[i] {
            return (a[i] as u32) < (b[i] as u32);
        }
        assert(a@.skip(i as int).skip(1) =~= a@.skip(i + 1));
        assert(b@.skip(i as int).skip(1) =~= b@.skip(i + 1));
        i = i + 1;
    }
    i < b.len()
}

/// The positions of items with timestamps `keys`, newest first: every
/// position once, ordered as `goes_before` says. This is the order that a
/// stable ascending sort by key followed by a reversal gives.
pub fn newest_first(keys: &Vec<String>) -> (r: Vec<usize>)
    ensures
        r.len() == keys.len(),
        forall|i: int| 0 <= i < r.len() ==> r@[i] < keys.len(),
        forall|k: usize| k < keys.len() ==> r@.contains(k),
        forall|i: int, j: int| 0 <= i < j < r.len() ==> goes_before(keys@, #[trigger] r@[i] as int, #[trigger] r@[j] as int),
{
    let mut chars: Vec<Vec<char>> = Vec::new();
    let mut m: usize = 0;
    while m < keys.len()
        invariant
            m <= keys.len(),
            chars.len() == m,
            forall|k: int| 0 <= k < m ==> #[trigger] chars@[k]@ == keys@[k]@,
        decreases keys.len() - m,
    {
        chars.push(chars_of(keys[m].as_str()));
        m = m + 1;
    }
    let mut r: Vec<usize> = Vec::new();
    let mut n: usize = 0;
    while n < keys.len()
        invariant
            n <= keys.len(),
            chars.len() == keys.len(),
            forall|k: int| 0 <= k < keys.len() ==> #[trigger] chars@[k]@ == keys@[k]@,
            r.len() == n,
            forall|i: int| 0 <= i < r.len() ==> r@[i] < n,
            forall|k: usize| k < n ==> r@.contains(k),
            forall|i: int, j: int| 0 <= i < j < r.len() ==> goes_before(keys@, #[trigger] r@[i] as int, #[trigger] r@[j] as int),
        decreases keys.len() - n,
    {
        let mut p: usize = 0;
        while p < r.len() && lex_less(&chars[n], &chars[r[p]])
            invariant
                p <= r.len(),
                n < keys.len(),
                chars.len() == keys.len(),
                forall|k: int| 0 <= k < keys.len() ==> #[trigger] chars@[k]@ == keys@[k]@,
                forall|i: int| 0 <= i < r.len() ==> r@[i] < n,
                forall|j: int| 0 <= j < p ==> lex_lt(keys@[n as int]@, keys@[#[trigger] r@[j] as int]@),
            decreases r.len() - p,
        {
            p = p + 1;
        }
        let ghost old_r = r@;
        let ghost kn = keys@[n as int]@;
        proof {
            assert forall|j: int| p <= j < old_r.len() implies !lex_lt(kn, keys@[#[trigger] old_r[j] as int]@) by {
                let kp = keys@[old_r[p as int] as int]@;
                let kj = keys@[old_r[j] as int]@;
                lemma_lex_trichotomy(kn, kp);
                lemma_lex_trichotomy(kn, kj);
                if j > p {
                    assert(goes_before(keys@, old_r[p as int] as int, old_r[j] as int));
                    if lex_lt(kn, kj) {
                        if lex_lt(kp, kn) {
                            lemma_lex_transitive(kp, kn, kj);
                        }
                        if lex_lt(kj, kp) {
                            lemma_lex_transitive(kn, kj, kp);
                        }
                    }
                }
            }
        }
        r.insert(p, n);
        proof {
            let nr = r@;
            assert(nr =~= old_r.insert(p as int, n));
            assert forall|i: int| 0 <= i < nr.len() implies nr[i] < n + 1 by {
                if i > p {
                    assert(nr[i] == old_r[i - 1]);
                }
            }
            assert forall|k: usize| k < n + 1 implies nr.contains(k) by {
                if k == n {
                    assert(nr[p as int] == n);
                } else {
                    assert(old_r.contains(k));
                    let w = choose|w: int| 0 <= w < old_r.len() && old_r[w] == k;
                    if w < p {
                        assert(nr[w] == k);
                    } else {
                        assert(nr[w + 1] == k);
                    }
                }
            }
            assert forall|i: int, j: int| 0 <= i < j < nr.len() implies goes_before(keys@, #[trigger] nr[i] as int, #[trigger] nr[j] as int) by {
                if j < p {
                    assert(goes_before(keys@, old_r[i] as int, old_r[j] as int));
                } else if j == p {
                    assert(lex_lt(kn, keys@[old_r[i] as int]@));
                } else if i < p {
                    assert(goes_before(keys@, old_r[i] as int, old_r[j - 1] as int));
                } else if i == p {
                    lemma_lex_trichotomy(kn, keys@[old_r[j - 1] as int]@);
                    assert(!lex_lt(kn, keys@[old_r[j - 1] as int]@));
                } else {
                    assert(goes_before(keys@, old_r[i - 1] as int, old_r[j - 1] as int));
                }
            }
        }
        n = n + 1;
    }
    r
}

} // verus!
