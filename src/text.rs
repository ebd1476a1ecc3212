use vstd::prelude::*;

verus! {

/// Relies on `String::push`: the character is appended at the end.
#[verifier::external_body]
pub(crate) fn push_char(s: &mut String, c: char)
    ensures
        final(s)@ == old(s)@.push(c),
{
    s.push(c)
}

/// The characters of `s`, in order.
pub fn chars_of(s: &str) -> (r: Vec<char>)
    ensures
        r@ == s@,
{
    let mut v: Vec<char> = Vec::new();
    for c in it: s.chars()
        invariant
            v@ == it.seq().take(it.index() as int),
            it.seq() == s@,
    {
        v.push(c);
    }
    v
}

/// Whether `t` holds `lit` from position `i` on; if so, the position after it.
pub fn match_literal(t: &Vec<char>, i: usize, lit: &str) -> (r: Option<usize>)
    requires
        i <= t.len(),
    ensures
        match r {
            Some(e) => e == i + lit@.len() && e <= t.len() && t@.subrange(i as int, e as int) == lit@,
            None => !(i + lit@.len() <= t.len() && t@.subrange(i as int, i + lit@.len()) == lit@),
        },
{
    let l = chars_of(lit);
    if l.len() > t.len() - i {
        return None;
    }
    let mut j: usize = 0;
    while j < l.len()
        invariant
            l@ == lit@,
            i + l.len() <= t.len(),
            j <= l.len(),
            forall|k: int| 0 <= k < j ==> t@[i + k] == l@[k],
        decreases l.len() - j,
    {
        if t[i + j] != l[j] {
            proof {
                assert(t@.subrange(i as int, i + lit@.len())[j as int] != lit@[j as int]);
            }
            return None;
        }
        j = j + 1;
    }
    proof {
        assert(t@.subrange(i as int, i + lit@.len()) =~= lit@);
    }
    Some(i + l.len())
}

/// The characters of `t` from `from` to `to`, as a string.
pub fn slice_string(t: &Vec<char>, from: usize, to: usize) -> (r: String)
    requires
        from <= to <= t.len(),
    ensures
        r@ == t@.subrange(from as int, to as int),
{
    let mut r = String::new();
    let mut i: usize = from;
    while i < to
        invariant
            from <= i <= to <= t.len(),
            r@ == t@.subrange(from as int, i as int),
        decreases to - i,
    {
        push_char(&mut r, t[i]);
        proof {
            assert(t@.subrange(from as int, i + 1) =~= t@.subrange(from as int, i as int).push(t@[i as int]));
        }
        i = i + 1;
    }
    r
}

} // verus!
