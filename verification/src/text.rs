//! String primitives the rest of the crate builds on: the specifications of
//! the few `String` and `char` methods used, and the ordering of keys.

use vstd::prelude::*;
use vstd::std_specs::iter::IteratorSpec;

verus! {

/// Whether `char::is_alphanumeric` holds of `c`.
pub uninterp spec fn is_alphanumeric_char(c: char) -> bool;

/// `char::is_alphanumeric` is a fixed property of the character: the Unicode
/// classes Alphabetic and Numeric. Nothing more is claimed than that the call
/// reports that property.
pub assume_specification[ char::is_alphanumeric ](c: char) -> (r: bool)
    ensures
        r == is_alphanumeric_char(c),
;

/// Whether `char::is_whitespace` holds of `c`.
pub uninterp spec fn is_whitespace_char(c: char) -> bool;

/// `char::is_whitespace` is a fixed property of the character: the Unicode
/// property White_Space. Nothing more is claimed than that the call reports
/// that property.
pub assume_specification[ char::is_whitespace ](c: char) -> (r: bool)
    ensures
        r == is_whitespace_char(c),
;

/// `String::push` appends one character to the end of the string.
pub assume_specification[ String::push ](s: &mut String, c: char)
    ensures
        final(s)@ == old(s)@.push(c),
;

/// `String::pop` removes the last character and returns it, or returns `None`
/// and leaves the string alone when it is empty.
pub assume_specification[ String::pop ](s: &mut String) -> (r: Option<char>)
    ensures
        old(s)@.len() == 0 ==> r is None && final(s)@ == old(s)@,
        old(s)@.len() > 0 ==> r == Some(old(s)@.last()) && final(s)@ == old(s)@.drop_last(),
;

/// Strict lexicographic order of two strings by the scalar values of their
/// characters; a proper prefix precedes its extensions.
pub open spec fn key_lt(a: Seq<char>, b: Seq<char>) -> bool
    decreases a.len(),
{
    if b.len() == 0 {
        false
    } else if a.len() == 0 {
        true
    } else if a[0] != b[0] {
        (a[0] as u32) < (b[0] as u32)
    } else {
        key_lt(a.drop_first(), b.drop_first())
    }
}

/// No key precedes itself.
pub proof fn lemma_key_lt_irreflexive(a: Seq<char>)
    ensures
        !key_lt(a, a),
    decreases a.len(),
{
    if a.len() > 0 {
        lemma_key_lt_irreflexive(a.drop_first());
    }
}

/// Of two keys at most one precedes the other.
pub proof fn lemma_key_lt_asymmetric(a: Seq<char>, b: Seq<char>)
    ensures
        !(key_lt(a, b) && key_lt(b, a)),
    decreases a.len(),
{
    if a.len() > 0 && b.len() > 0 && a[0] == b[0] {
        lemma_key_lt_asymmetric(a.drop_first(), b.drop_first());
    }
}

/// The order of keys is transitive.
pub proof fn lemma_key_lt_transitive(a: Seq<char>, b: Seq<char>, c: Seq<char>)
    requires
        key_lt(a, b),
        key_lt(b, c),
    ensures
        key_lt(a, c),
    decreases a.len(),
{
    if a.len() > 0 && b.len() > 0 && c.len() > 0 && a[0] == b[0] && b[0] == c[0] {
        lemma_key_lt_transitive(a.drop_first(), b.drop_first(), c.drop_first());
    }
}

/// Two different keys are ordered one way or the other.
pub proof fn lemma_key_lt_total(a: Seq<char>, b: Seq<char>)
    ensures
        a == b || key_lt(a, b) || key_lt(b, a),
    decreases a.len(),
{
    if a.len() == 0 || b.len() == 0 {
        if a.len() == 0 && b.len() == 0 {
            assert(a =~= b);
        }
    } else if a[0] == b[0] {
        lemma_key_lt_total(a.drop_first(), b.drop_first());
        if a.drop_first() == b.drop_first() {
            assert(a =~= seq![a[0]] + a.drop_first());
            assert(b =~= seq![b[0]] + b.drop_first());
        }
    } else {
        lemma_scalar_injective(a[0], b[0]);
    }
}

/// Two characters with the same scalar value are the same character.
pub proof fn lemma_scalar_injective(x: char, y: char)
    ensures
        (x as u32) == (y as u32) ==> x == y,
{
    vstd::utf8::char_u32_cast(x, x as u32);
    vstd::utf8::char_u32_cast(y, y as u32);
}

/// How one key stands to another in the order of `key_lt`.
#[derive(Clone, Copy, Debug, PartialEq, Eq)]
pub enum KeyOrder {
    Before,
    Same,
    After,
}

/// Compares two keys character by character.
pub fn key_order(a: &str, b: &str) -> (r: KeyOrder)
    ensures
        r == KeyOrder::Before <==> key_lt(a@, b@),
        r == KeyOrder::Same <==> a@ == b@,
        r == KeyOrder::After <==> key_lt(b@, a@),
{
    let n = a.unicode_len();
    let mut i: usize = 0;
    let mut ia = a.chars();
    let mut ib = b.chars();
    proof {
        lemma_key_lt_irreflexive(a@);
        lemma_key_lt_asymmetric(a@, b@);
    }
    loop
        invariant
            i <= n,
            ia.remaining().len() == n - i,
            key_lt(a@, b@) == key_lt(ia.remaining(), ib.remaining()),
            key_lt(b@, a@) == key_lt(ib.remaining(), ia.remaining()),
            (a@ == b@) == (ia.remaining() == ib.remaining()),
        decreases n - i,
    {
        let ghost ra = ia.remaining();
        let ghost rb = ib.remaining();
        proof {
            lemma_key_lt_irreflexive(ra);
            lemma_key_lt_asymmetric(ra, rb);
        }
        let ca = ia.next();
        let cb = ib.next();
        match (ca, cb) {
            (None, None) => {
                assert(ra =~= rb);
                return KeyOrder::Same;
            },
            (None, Some(_)) => {
                return KeyOrder::Before;
            },
            (Some(_), None) => {
                return KeyOrder::After;
            },
            (Some(x), Some(y)) => {
                if x != y {
                    proof {
                        lemma_scalar_injective(x, y);
                    }
                    if (x as u32) < (y as u32) {
                        return KeyOrder::Before;
                    } else {
                        return KeyOrder::After;
                    }
                }
                assert(ra =~= seq![x] + ra.drop_first());
                assert(rb =~= seq![y] + rb.drop_first());
                i = i + 1;
            },
        }
    }
}

/// The characters of a string, one by one.
pub fn chars_of(s: &str) -> (r: Vec<char>)
    ensures
        r@ == s@,
{
    let n = s.unicode_len();
    let mut out: Vec<char> = Vec::new();
    let mut it = s.chars();
    let mut i: usize = 0;
    while i < n
        invariant
            i <= n,
            n == s@.len(),
            out@.len() == i,
            it.remaining() == s@.subrange(i as int, n as int),
            out@ == s@.subrange(0, i as int),
        decreases n - i,
    {
        let ghost rest = it.remaining();
        match it.next() {
            Some(c) => {
                assert(c == s@[i as int]);
                assert(rest.drop_first() =~= s@.subrange(i + 1, n as int));
                assert(s@.subrange(0, i as int).push(c) =~= s@.subrange(0, i + 1));
                out.push(c);
            },
            None => {
                assert(false);
            },
        }
        i = i + 1;
    }
    assert(s@.subrange(0, n as int) =~= s@);
    out
}

/// The string made of the characters `chars[from..to]`.
pub fn string_of(chars: &Vec<char>, from: usize, to: usize) -> (r: String)
    requires
        from <= to <= chars@.len(),
    ensures
        r@ == chars@.subrange(from as int, to as int),
{
    let mut out = String::new();
    let mut i: usize = from;
    while i < to
        invariant
            from <= i <= to <= chars@.len(),
            out@ == chars@.subrange(from as int, i as int),
        decreases to - i,
    {
        out.push(chars[i]);
        assert(chars@.subrange(from as int, i as int).push(chars@[i as int]) =~= chars@.subrange(
            from as int,
            i + 1,
        ));
        i = i + 1;
    }
    out
}

} // verus!
