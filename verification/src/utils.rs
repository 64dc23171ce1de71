//! Naming helpers.
use vstd::prelude::*;

use crate::text::push_char;

verus! {

/// The ASCII uppercase of `c`: lowercase ASCII letters are mapped to uppercase, any other
/// character is kept.
pub open spec fn ascii_upper(c: char) -> char {
    if 'a' <= c <= 'z' {
        ((c as u32) - 32) as char
    } else {
        c
    }
}

/// The ASCII uppercase of `c` (see `ascii_upper`).
pub fn to_ascii_uppercase(c: char) -> (r: char)
    ensures
        r == ascii_upper(c),
{
    if 'a' <= c && c <= 'z' {
        let b: u8 = (c as u32 - 32) as u8;
        b as char
    } else {
        c
    }
}

/// The camel case form of a snake case name: underscores are dropped and the character that
/// follows an underscore is made uppercase (`test_array` gives `testArray`).
pub open spec fn camel_case(s: Seq<char>) -> Seq<char>
    decreases s.len(),
{
    if s.len() == 0 {
        Seq::empty()
    } else if s.last() == '_' {
        camel_case(s.drop_last())
    } else if s.len() >= 2 && s[s.len() - 2] == '_' {
        camel_case(s.drop_last()).push(ascii_upper(s.last()))
    } else {
        camel_case(s.drop_last()).push(s.last())
    }
}

/// Converts a snake case name to camel case (see `camel_case`).
pub fn snake_to_camel(s: &str) -> (r: String)
    ensures
        r@ == camel_case(s@),
{
    let n = s.unicode_len();
    let mut out = String::new();
    let mut capitalize_next = false;
    let mut i: usize = 0;
    while i < n
        invariant
            0 <= i <= n,
            n == s@.len(),
            out@ == camel_case(s@.take(i as int)),
            capitalize_next == (i > 0 && s@[i - 1] == '_'),
        decreases n - i,
    {
        let c = s.get_char(i);
        proof {
            assert(s@.take(i + 1).drop_last() =~= s@.take(i as int));
            assert(s@.take(i + 1).last() == c);
            if i >= 1 {
                assert(s@.take(i + 1)[i - 1] == s@[i - 1]);
            }
        }
        if c == '_' {
            capitalize_next = true;
        } else if capitalize_next {
            let u = to_ascii_uppercase(c);
            push_char(&mut out, u);
            capitalize_next = false;
        } else {
            push_char(&mut out, c);
        }
        i = i + 1;
    }
    proof {
        assert(s@.take(i as int) =~= s@);
    }
    out
}

/// Uppercasing maps each lowercase ASCII letter to the uppercase letter 32 code points below
/// it, keeps every other character, and changes nothing a second time.
pub proof fn law_ascii_upper(c: char)
    ensures
        'a' <= c <= 'z' ==> 'A' <= ascii_upper(c) <= 'Z' && ascii_upper(c) as u32 + 32 == c as u32,
        !('a' <= c <= 'z') ==> ascii_upper(c) == c,
        ascii_upper(ascii_upper(c)) == ascii_upper(c),
{
}

/// The camel case form holds no underscore, and holds one character for each character of the
/// name that is not an underscore.
pub proof fn law_camel_case_has_no_underscore(s: Seq<char>)
    ensures
        forall|i: int| 0 <= i < camel_case(s).len() ==> camel_case(s)[i] != '_',
        camel_case(s).len() == s.filter(|ch: char| ch != '_').len(),
    decreases s.len(),
{
    if s.len() > 0 {
        law_camel_case_has_no_underscore(s.drop_last());
        reveal(Seq::filter);
        assert(s.drop_last().push(s.last()) =~= s);
    }
}

/// Dropping a trailing underscore changes nothing: `camel_case(s + "_") == camel_case(s)`.
pub proof fn law_camel_case_drops_underscore(s: Seq<char>)
    ensures
        camel_case(s.push('_')) == camel_case(s),
{
    assert(s.push('_').drop_last() =~= s);
}

/// A character that does not follow an underscore is kept as it is.
pub proof fn law_camel_case_keeps_other(s: Seq<char>, c: char)
    requires
        c != '_',
        s.len() == 0 || s.last() != '_',
    ensures
        camel_case(s.push(c)) == camel_case(s).push(c),
{
    assert(s.push(c).drop_last() =~= s);
}

/// The character that directly follows an underscore is made uppercase, wherever the pair
/// stands in the name: `camel_case(s + "_" + c) == camel_case(s) + upper(c)`.
pub proof fn law_camel_case_upper_after_underscore(s: Seq<char>, c: char)
    requires
        c != '_',
    ensures
        camel_case(s + seq!['_', c]) == camel_case(s).push(ascii_upper(c)),
{
    let t = s + seq!['_', c];
    assert(t.drop_last() =~= s.push('_'));
    assert(t[t.len() - 2] == '_');
    law_camel_case_drops_underscore(s);
}

/// Camel case works piece by piece: after a piece that does not end with an underscore, the
/// rest is converted on its own, `camel_case(a + b) == camel_case(a) + camel_case(b)`.
pub proof fn law_camel_case_concat(a: Seq<char>, b: Seq<char>)
    requires
        a.len() > 0,
        a.last() != '_',
    ensures
        camel_case(a + b) == camel_case(a) + camel_case(b),
    decreases b.len(),
{
    if b.len() == 0 {
        assert(a + b =~= a);
        assert(camel_case(a) + camel_case(b) =~= camel_case(a));
    } else {
        let ab = a + b;
        law_camel_case_concat(a, b.drop_last());
        assert(ab.drop_last() =~= a + b.drop_last());
        assert(ab.last() == b.last());
        if b.len() >= 2 {
            assert(ab[ab.len() - 2] == b[b.len() - 2]);
        } else {
            assert(ab[ab.len() - 2] == a.last());
            assert(b.drop_last() =~= Seq::<char>::empty());
        }
        let x = camel_case(a);
        let y = camel_case(b.drop_last());
        assert(forall|ch: char| (x + y).push(ch) =~= x + y.push(ch));
        assert(x + y =~= x + y);
    }
}

/// Every character that directly follows an underscore is made uppercase, wherever it stands:
/// `camel_case(w1 + "_" + c + w2) == camel_case(w1) + upper(c) + camel_case(w2)`.
pub proof fn law_camel_case_word_boundary(w1: Seq<char>, c: char, w2: Seq<char>)
    requires
        c != '_',
    ensures
        camel_case(w1 + seq!['_', c] + w2) == camel_case(w1).push(ascii_upper(c)) + camel_case(w2),
{
    let a = w1 + seq!['_', c];
    law_camel_case_upper_after_underscore(w1, c);
    law_camel_case_concat(a, w2);
}

} // verus!

verus! {

/// The ASCII uppercase of each character of `s`.
pub open spec fn ascii_upper_text(s: Seq<char>) -> Seq<char> {
    s.map_values(|c: char| ascii_upper(c))
}

/// The ASCII uppercase of `s` (std's `str::to_ascii_uppercase`, character by character).
pub fn to_ascii_uppercase_text(s: &str) -> (r: String)
    ensures
        r@ == ascii_upper_text(s@),
{
    let n = s.unicode_len();
    let mut out = String::new();
    let mut i: usize = 0;
    while i < n
        invariant
            0 <= i <= n,
            n == s@.len(),
            out@ == ascii_upper_text(s@.take(i as int)),
        decreases n - i,
    {
        let c = to_ascii_uppercase(s.get_char(i));
        push_char(&mut out, c);
        proof {
            assert(ascii_upper_text(s@.take(i + 1)) =~= ascii_upper_text(s@.take(i as int)).push(c));
        }
        i = i + 1;
    }
    proof {
        assert(s@.take(i as int) =~= s@);
    }
    out
}

} // verus!
