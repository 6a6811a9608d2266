//! Character-level text utilities: splitting a character sequence on a
//! separator and reading unsigned decimal numbers.
use vstd::prelude::*;

verus! {

// ---------------------------------------------------------------------------
// Decimal digits
// ---------------------------------------------------------------------------

/// A decimal digit character.
pub open spec fn is_digit(c: char) -> bool {
    '0' <= c && c <= '9'
}

/// Numeric value of a digit character.
pub open spec fn digit_val(c: char) -> nat
    recommends
        is_digit(c),
{
    (c as u32 - '0' as u32) as nat
}

/// Every character of `s` is a decimal digit.
pub open spec fn all_digits(s: Seq<char>) -> bool {
    forall|i: int| 0 <= i < s.len() ==> is_digit(#[trigger] s[i])
}

/// The value of `s` read as a base-10 number.
pub open spec fn dec_val(s: Seq<char>) -> nat
    recommends
        all_digits(s),
    decreases s.len(),
{
    if s.len() == 0 {
        0
    } else {
        dec_val(s.drop_last()) * 10 + digit_val(s.last())
    }
}

/// A non-empty digit string whose value fits in 16 bits.
pub open spec fn is_dec_u16(s: Seq<char>) -> bool {
    s.len() > 0 && all_digits(s) && dec_val(s) <= 0xffff
}

/// The value of a prefix never exceeds the value of the whole digit string.
pub proof fn lemma_dec_val_prefix_le(s: Seq<char>, i: int)
    requires
        0 <= i <= s.len(),
    ensures
        dec_val(s.subrange(0, i)) <= dec_val(s),
    decreases s.len() - i,
{
    if i == s.len() {
        assert(s.subrange(0, i) =~= s);
    } else {
        let p = s.subrange(0, i);
        let q = s.subrange(0, i + 1);
        assert(q.drop_last() =~= p);
        assert(dec_val(q) == dec_val(p) * 10 + digit_val(q.last()));
        lemma_dec_val_prefix_le(s, i + 1);
    }
}

/// Reads `s` as an unsigned 16-bit decimal number; `None` when `s` is empty,
/// holds a non-digit, or exceeds 65535.
pub fn parse_u16(s: &Vec<char>) -> (r: Option<u16>)
    ensures
        r is Some <==> is_dec_u16(s@),
        r is Some ==> r.unwrap() as nat == dec_val(s@),
{
    if s.len() == 0 {
        return None;
    }
    let mut val: u32 = 0;
    let mut i: usize = 0;
    while i < s.len()
        invariant
            0 <= i <= s@.len(),
            all_digits(s@.subrange(0, i as int)),
            val as nat == dec_val(s@.subrange(0, i as int)),
            val <= 0xffff,
        decreases s@.len() - i,
    {
        let c = s[i];
        if c < '0' || c > '9' {
            assert(!is_digit(s@[i as int]));
            return None;
        }
        let d: u32 = c as u32 - '0' as u32;
        proof {
            assert(s@.subrange(0, i + 1 as int).drop_last() =~= s@.subrange(0, i as int));
            assert(s@.subrange(0, i + 1 as int).last() == s@[i as int]);
        }
        val = val * 10 + d;
        i = i + 1;
        if val > 0xffff {
            proof {
                lemma_dec_val_prefix_le(s@, i as int);
            }
            return None;
        }
    }
    proof {
        assert(s@.subrange(0, s@.len() as int) =~= s@);
    }
    Some(val as u16)
}

// ---------------------------------------------------------------------------
// Splitting on a separator character
// ---------------------------------------------------------------------------

/// The fields of `s` between occurrences of `sep`, in order; an empty
/// sequence has one empty field, and a trailing separator yields a trailing
/// empty field.
pub open spec fn split_on(s: Seq<char>, sep: char) -> Seq<Seq<char>>
    decreases s.len(),
{
    if s.len() == 0 {
        seq![Seq::<char>::empty()]
    } else if s[0] == sep {
        seq![Seq::<char>::empty()] + split_on(s.drop_first(), sep)
    } else {
        let rest = split_on(s.drop_first(), sep);
        seq![seq![s[0]] + rest[0]] + rest.skip(1)
    }
}

/// Splitting always yields at least one field.
pub proof fn lemma_split_on_len(s: Seq<char>, sep: char)
    ensures
        split_on(s, sep).len() >= 1,
    decreases s.len(),
{
    if s.len() == 0 {
    } else {
        lemma_split_on_len(s.drop_first(), sep);
    }
}

/// The pending field `prefix` glued onto the front of the first field of `ss`.
spec fn glue(prefix: Seq<char>, ss: Seq<Seq<char>>) -> Seq<Seq<char>>
    recommends
        ss.len() >= 1,
{
    seq![prefix + ss[0]] + ss.skip(1)
}

/// Splits `v` on the separator `sep`, exactly as `split_on` describes.
pub fn split_char(v: &Vec<char>, sep: char) -> (r: Vec<Vec<char>>)
    ensures
        r@.len() == split_on(v@, sep).len(),
        forall|j: int| 0 <= j < r@.len() ==> #[trigger] r@[j]@ == split_on(v@, sep)[j],
{
    let ghost whole = split_on(v@, sep);
    let mut parts: Vec<Vec<char>> = Vec::new();
    let mut cur: Vec<char> = Vec::new();
    let mut i: usize = 0;
    proof {
        lemma_split_on_len(v@.subrange(0, v@.len() as int), sep);
        assert(v@.subrange(0, v@.len() as int) =~= v@);
        assert(glue(Seq::<char>::empty(), whole) =~~= whole);
    }
    while i < v.len()
        invariant
            0 <= i <= v@.len(),
            split_on(v@.subrange(i as int, v@.len() as int), sep).len() >= 1,
            parts@.map_values(|p: Vec<char>| p@) + glue(
                cur@,
                split_on(v@.subrange(i as int, v@.len() as int), sep),
            ) =~~= whole,
            whole == split_on(v@, sep),
        decreases v@.len() - i,
    {
        let ghost rem = v@.subrange(i as int, v@.len() as int);
        let ghost rest = split_on(v@.subrange(i + 1 as int, v@.len() as int), sep);
        proof {
            lemma_split_on_len(v@.subrange(i + 1 as int, v@.len() as int), sep);
            assert(rem.drop_first() =~= v@.subrange(i + 1 as int, v@.len() as int));
            assert(rem[0] == v@[i as int]);
        }
        if v[i] == sep {
            proof {
                assert(split_on(rem, sep) == seq![Seq::<char>::empty()] + rest);
            }
            let finished = cur;
            cur = Vec::new();
            parts.push(finished);
            proof {
                assert(parts@.map_values(|p: Vec<char>| p@) =~= parts@.drop_last().map_values(
                    |p: Vec<char>| p@,
                ).push(finished@));
                assert(parts@.map_values(|p: Vec<char>| p@) + glue(cur@, rest) =~~= whole);
            }
        } else {
            proof {
                assert(split_on(rem, sep) == seq![seq![rem[0]] + rest[0]] + rest.skip(1));
            }
            let ghost old_cur = cur@;
            cur.push(v[i]);
            proof {
                assert(cur@ =~= old_cur.push(v@[i as int]));
                assert(cur@ + rest[0] =~= old_cur + (seq![v@[i as int]] + rest[0]));
                assert(parts@.map_values(|p: Vec<char>| p@) + glue(cur@, rest) =~~= whole);
            }
        }
        i = i + 1;
    }
    proof {
        assert(v@.subrange(i as int, v@.len() as int) =~= Seq::<char>::empty());
        assert(split_on(Seq::<char>::empty(), sep) == seq![Seq::<char>::empty()]);
        assert(cur@ + Seq::<char>::empty() =~= cur@);
    }
    let ghost final_cur = cur@;
    parts.push(cur);
    proof {
        assert(parts@.map_values(|p: Vec<char>| p@) =~= parts@.drop_last().map_values(
            |p: Vec<char>| p@,
        ).push(final_cur));
        assert(parts@.map_values(|p: Vec<char>| p@) =~~= whole);
    }
    parts
}

/// Copies the characters of `v` into a fresh vector.
pub fn copy_chars(v: &Vec<char>) -> (r: Vec<char>)
    ensures
        r@ == v@,
{
    let mut out: Vec<char> = Vec::new();
    let mut i: usize = 0;
    while i < v.len()
        invariant
            0 <= i <= v@.len(),
            out@ =~= v@.subrange(0, i as int),
        decreases v@.len() - i,
    {
        out.push(v[i]);
        i = i + 1;
    }
    proof {
        assert(v@.subrange(0, v@.len() as int) =~= v@);
    }
    out
}

/// Compares two character vectors for equality of their contents.
pub fn chars_eq(a: &Vec<char>, b: &Vec<char>) -> (r: bool)
    ensures
        r <==> a@ == b@,
{
    if a.len() != b.len() {
        assert(a@.len() != b@.len());
        return false;
    }
    let mut i: usize = 0;
    while i < a.len()
        invariant
            0 <= i <= a@.len(),
            a@.len() == b@.len(),
            forall|j: int| 0 <= j < i ==> a@[j] == b@[j],
        decreases a@.len() - i,
    {
        if a[i] != b[i] {
            return false;
        }
        i = i + 1;
    }
    proof {
        assert(a@ =~= b@);
    }
    true
}

} // verus!
