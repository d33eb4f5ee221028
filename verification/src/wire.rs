//! Byte-level primitives of the wire codec: little-endian integers, tagged
//! booleans, characters as code points, length-prefixed strings and lists.
//!
//! Each primitive has a specification-level encoder and decoder; the
//! executable readers and writers are proved against them, and the
//! `lemma_dec_*_enc` family shows that decoding an encoding yields the
//! value back, which the message-level round-trip laws build on.

use vstd::prelude::*;
use vstd::string::{StringExecFns, StrSliceExecFns};

verus! {

// ---------------------------------------------------------------- encoding

pub open spec fn enc_u8(x: u8) -> Seq<u8> {
    seq![x]
}

pub open spec fn enc_u32(x: u32) -> Seq<u8> {
    seq![
        (x % 0x100) as u8,
        ((x / 0x100) % 0x100) as u8,
        ((x / 0x10000) % 0x100) as u8,
        ((x / 0x1000000) % 0x100) as u8,
    ]
}

pub open spec fn enc_u64(x: u64) -> Seq<u8> {
    seq![
        (x % 0x100) as u8,
        ((x / 0x100) % 0x100) as u8,
        ((x / 0x10000) % 0x100) as u8,
        ((x / 0x1000000) % 0x100) as u8,
        ((x / 0x100000000) % 0x100) as u8,
        ((x / 0x10000000000) % 0x100) as u8,
        ((x / 0x1000000000000) % 0x100) as u8,
        ((x / 0x100000000000000) % 0x100) as u8,
    ]
}

pub open spec fn enc_i64(x: i64) -> Seq<u8> {
    enc_u64(x as u64)
}

pub open spec fn enc_bool(b: bool) -> Seq<u8> {
    seq![if b { 1u8 } else { 0u8 }]
}

pub open spec fn enc_char(c: char) -> Seq<u8> {
    enc_u32(c as u32)
}

pub open spec fn enc_chars(s: Seq<char>) -> Seq<u8>
    decreases s.len(),
{
    if s.len() == 0 {
        Seq::empty()
    } else {
        enc_char(s.first()) + enc_chars(s.drop_first())
    }
}

/// A string: its character count, then each character as a code point.
pub open spec fn enc_str(s: Seq<char>) -> Seq<u8> {
    enc_u64(s.len() as u64) + enc_chars(s)
}

/// An uncounted run of encoded elements.
pub open spec fn enc_list<T>(s: Seq<T>, f: spec_fn(T) -> Seq<u8>) -> Seq<u8>
    decreases s.len(),
{
    if s.len() == 0 {
        Seq::empty()
    } else {
        f(s.first()) + enc_list(s.drop_first(), f)
    }
}

/// A list: its element count, then each element.
pub open spec fn enc_counted<T>(s: Seq<T>, f: spec_fn(T) -> Seq<u8>) -> Seq<u8> {
    enc_u64(s.len() as u64) + enc_list(s, f)
}

// ---------------------------------------------------------------- decoding

pub open spec fn dec_u8(b: Seq<u8>, i: int) -> Option<(u8, int)> {
    if 0 <= i && i + 1 <= b.len() {
        Some((b[i], i + 1))
    } else {
        None
    }
}

pub open spec fn le32(b0: u8, b1: u8, b2: u8, b3: u8) -> int {
    b0 + 0x100 * (b1 as int) + 0x10000 * (b2 as int) + 0x1000000 * (b3 as int)
}

pub open spec fn dec_u32(b: Seq<u8>, i: int) -> Option<(u32, int)> {
    if 0 <= i && i + 4 <= b.len() {
        Some((le32(b[i], b[i + 1], b[i + 2], b[i + 3]) as u32, i + 4))
    } else {
        None
    }
}

pub open spec fn le64(
    b0: u8, b1: u8, b2: u8, b3: u8, b4: u8, b5: u8, b6: u8, b7: u8,
) -> int {
    b0 + 0x100 * (b1 as int) + 0x10000 * (b2 as int) + 0x1000000 * (b3 as int)
        + 0x100000000 * (b4 as int) + 0x10000000000 * (b5 as int)
        + 0x1000000000000 * (b6 as int) + 0x100000000000000 * (b7 as int)
}

pub open spec fn dec_u64(b: Seq<u8>, i: int) -> Option<(u64, int)> {
    if 0 <= i && i + 8 <= b.len() {
        Some((
            le64(b[i], b[i + 1], b[i + 2], b[i + 3], b[i + 4], b[i + 5], b[i + 6],
                b[i + 7]) as u64,
            i + 8,
        ))
    } else {
        None
    }
}

pub open spec fn dec_i64(b: Seq<u8>, i: int) -> Option<(i64, int)> {
    match dec_u64(b, i) {
        Some((u, j)) => Some((u as i64, j)),
        None => None,
    }
}

pub open spec fn dec_bool(b: Seq<u8>, i: int) -> Option<(bool, int)> {
    match dec_u8(b, i) {
        Some((t, j)) => if t == 0 {
            Some((false, j))
        } else if t == 1 {
            Some((true, j))
        } else {
            None
        },
        None => None,
    }
}

/// The code points `char` can carry.
pub open spec fn valid_codepoint(u: u32) -> bool {
    u < 0xD800 || (0xE000 <= u && u <= 0x10FFFF)
}

pub open spec fn dec_char(b: Seq<u8>, i: int) -> Option<(char, int)> {
    match dec_u32(b, i) {
        Some((u, j)) => if valid_codepoint(u) {
            Some((u as char, j))
        } else {
            None
        },
        None => None,
    }
}

pub open spec fn dec_chars(b: Seq<u8>, i: int, n: int) -> Option<(Seq<char>, int)>
    decreases n,
{
    if n <= 0 {
        Some((Seq::empty(), i))
    } else {
        match dec_char(b, i) {
            Some((c, j)) => match dec_chars(b, j, n - 1) {
                Some((s, k)) => Some((seq![c] + s, k)),
                None => None,
            },
            None => None,
        }
    }
}

pub open spec fn dec_str(b: Seq<u8>, i: int) -> Option<(Seq<char>, int)> {
    match dec_u64(b, i) {
        Some((n, j)) => dec_chars(b, j, n as int),
        None => None,
    }
}

pub open spec fn dec_list<T>(
    b: Seq<u8>,
    i: int,
    n: int,
    df: spec_fn(Seq<u8>, int) -> Option<(T, int)>,
) -> Option<(Seq<T>, int)>
    decreases n,
{
    if n <= 0 {
        Some((Seq::empty(), i))
    } else {
        match df(b, i) {
            Some((v, j)) => match dec_list(b, j, n - 1, df) {
                Some((s, k)) => Some((seq![v] + s, k)),
                None => None,
            },
            None => None,
        }
    }
}

pub open spec fn dec_counted<T>(
    b: Seq<u8>,
    i: int,
    df: spec_fn(Seq<u8>, int) -> Option<(T, int)>,
) -> Option<(Seq<T>, int)> {
    match dec_u64(b, i) {
        Some((n, j)) => dec_list(b, j, n as int, df),
        None => None,
    }
}

// ------------------------------------------------------------------ lemmas

proof fn lemma_le32_recompose(x: u32)
    ensures
        le32((x % 0x100) as u8, ((x / 0x100) % 0x100) as u8, ((x / 0x10000) % 0x100) as u8,
            ((x / 0x1000000) % 0x100) as u8) == x,
{
    assert((x % 0x100) + 0x100 * ((x / 0x100) % 0x100) + 0x10000 * ((x / 0x10000) % 0x100)
        + 0x1000000 * ((x / 0x1000000) % 0x100) == x) by (bit_vector);
}

proof fn lemma_le64_recompose(x: u64)
    ensures
        le64((x % 0x100) as u8, ((x / 0x100) % 0x100) as u8, ((x / 0x10000) % 0x100) as u8,
            ((x / 0x1000000) % 0x100) as u8, ((x / 0x100000000) % 0x100) as u8,
            ((x / 0x10000000000) % 0x100) as u8, ((x / 0x1000000000000) % 0x100) as u8,
            ((x / 0x100000000000000) % 0x100) as u8) == x,
{
    assert((x % 0x100) + 0x100 * ((x / 0x100) % 0x100) + 0x10000 * ((x / 0x10000) % 0x100)
        + 0x1000000 * ((x / 0x1000000) % 0x100) + 0x100000000 * ((x / 0x100000000) % 0x100)
        + 0x10000000000 * ((x / 0x10000000000) % 0x100)
        + 0x1000000000000 * ((x / 0x1000000000000) % 0x100)
        + 0x100000000000000 * ((x / 0x100000000000000) % 0x100) == x) by (bit_vector);
}

/// A buffer region known to hold a concatenation holds each part in place.
pub proof fn lemma_subrange_split(b: Seq<u8>, i: int, a: Seq<u8>, c: Seq<u8>)
    requires
        0 <= i,
        i + a.len() + c.len() <= b.len(),
        b.subrange(i, i + a.len() + c.len()) == a + c,
    ensures
        b.subrange(i, i + a.len()) == a,
        b.subrange(i + a.len(), i + a.len() + c.len()) == c,
{
    assert forall|k: int| 0 <= k < a.len() implies b.subrange(i, i + a.len())[k] == a[k] by {
        assert(b.subrange(i, i + a.len() + c.len())[k] == (a + c)[k]);
    }
    assert(b.subrange(i, i + a.len()) =~= a);
    assert forall|k: int| 0 <= k < c.len()
        implies b.subrange(i + a.len(), i + a.len() + c.len())[k] == c[k] by {
        assert(b.subrange(i, i + a.len() + c.len())[a.len() + k] == (a + c)[a.len() + k]);
        assert(b.subrange(i, i + a.len() + c.len())[a.len() + k] == b[i + a.len() + k]);
        assert((a + c)[a.len() + k] == c[k]);
        assert(b.subrange(i + a.len(), i + a.len() + c.len())[k] == b[i + a.len() + k]);
    }
    assert(b.subrange(i + a.len(), i + a.len() + c.len()) =~= c);
}

/// A single character encodes as its code point alone.
pub proof fn lemma_enc_chars_singleton(c: char)
    ensures
        enc_chars(seq![c]) == enc_char(c),
{
    reveal_with_fuel(enc_chars, 2);
    assert(seq![c].drop_first() =~= Seq::<char>::empty());
    assert(enc_chars(seq![c]) =~= enc_char(c));
}

/// A single element encodes as itself alone.
pub proof fn lemma_enc_list_singleton<T>(v: T, f: spec_fn(T) -> Seq<u8>)
    ensures
        enc_list(seq![v], f) == f(v),
{
    reveal_with_fuel(enc_list, 2);
    assert(seq![v].drop_first() =~= Seq::<T>::empty());
    assert(enc_list(seq![v], f) =~= f(v));
}

pub proof fn lemma_dec_u8_enc(x: u8, b: Seq<u8>, i: int)
    requires
        0 <= i,
        i + 1 <= b.len(),
        b.subrange(i, i + 1) == enc_u8(x),
    ensures
        dec_u8(b, i) == Some((x, i + 1)),
{
    assert(b[i] == b.subrange(i, i + 1)[0]);
}

pub proof fn lemma_dec_u32_enc(x: u32, b: Seq<u8>, i: int)
    requires
        0 <= i,
        i + 4 <= b.len(),
        b.subrange(i, i + 4) == enc_u32(x),
    ensures
        dec_u32(b, i) == Some((x, i + 4)),
{
    assert(b[i] == b.subrange(i, i + 4)[0]);
    assert(b[i + 1] == b.subrange(i, i + 4)[1]);
    assert(b[i + 2] == b.subrange(i, i + 4)[2]);
    assert(b[i + 3] == b.subrange(i, i + 4)[3]);
    lemma_le32_recompose(x);
}

pub proof fn lemma_dec_u64_enc(x: u64, b: Seq<u8>, i: int)
    requires
        0 <= i,
        i + 8 <= b.len(),
        b.subrange(i, i + 8) == enc_u64(x),
    ensures
        dec_u64(b, i) == Some((x, i + 8)),
{
    assert(b[i] == b.subrange(i, i + 8)[0]);
    assert(b[i + 1] == b.subrange(i, i + 8)[1]);
    assert(b[i + 2] == b.subrange(i, i + 8)[2]);
    assert(b[i + 3] == b.subrange(i, i + 8)[3]);
    assert(b[i + 4] == b.subrange(i, i + 8)[4]);
    assert(b[i + 5] == b.subrange(i, i + 8)[5]);
    assert(b[i + 6] == b.subrange(i, i + 8)[6]);
    assert(b[i + 7] == b.subrange(i, i + 8)[7]);
    lemma_le64_recompose(x);
}

pub proof fn lemma_dec_i64_enc(x: i64, b: Seq<u8>, i: int)
    requires
        0 <= i,
        i + 8 <= b.len(),
        b.subrange(i, i + 8) == enc_i64(x),
    ensures
        dec_i64(b, i) == Some((x, i + 8)),
{
    lemma_dec_u64_enc(x as u64, b, i);
    assert((x as u64) as i64 == x) by (bit_vector);
}

pub proof fn lemma_dec_bool_enc(v: bool, b: Seq<u8>, i: int)
    requires
        0 <= i,
        i + 1 <= b.len(),
        b.subrange(i, i + 1) == enc_bool(v),
    ensures
        dec_bool(b, i) == Some((v, i + 1)),
{
    assert(b[i] == b.subrange(i, i + 1)[0]);
}

pub proof fn lemma_dec_char_enc(c: char, b: Seq<u8>, i: int)
    requires
        0 <= i,
        i + 4 <= b.len(),
        b.subrange(i, i + 4) == enc_char(c),
    ensures
        dec_char(b, i) == Some((c, i + 4)),
{
    lemma_dec_u32_enc(c as u32, b, i);
}

pub proof fn lemma_enc_chars_len(s: Seq<char>)
    ensures
        enc_chars(s).len() == 4 * s.len(),
    decreases s.len(),
{
    if s.len() > 0 {
        lemma_enc_chars_len(s.drop_first());
    }
}

pub proof fn lemma_enc_chars_append(s1: Seq<char>, s2: Seq<char>)
    ensures
        enc_chars(s1 + s2) == enc_chars(s1) + enc_chars(s2),
    decreases s1.len(),
{
    if s1.len() == 0 {
        assert(s1 + s2 =~= s2);
        assert(enc_chars(s1) + enc_chars(s2) =~= enc_chars(s2));
    } else {
        assert((s1 + s2).first() == s1.first());
        assert((s1 + s2).drop_first() =~= s1.drop_first() + s2);
        assert((s1 + s2).len() > 0);
        lemma_enc_chars_append(s1.drop_first(), s2);
        assert(enc_chars(s1 + s2) =~= enc_chars(s1) + enc_chars(s2));
    }
}

pub proof fn lemma_dec_chars_enc(s: Seq<char>, b: Seq<u8>, i: int)
    requires
        0 <= i,
        i + 4 * s.len() <= b.len(),
        b.subrange(i, i + 4 * s.len()) == enc_chars(s),
    ensures
        dec_chars(b, i, s.len() as int) == Some((s, i + 4 * s.len())),
    decreases s.len(),
{
    lemma_enc_chars_len(s);
    if s.len() > 0 {
        let c = s.first();
        let rest = s.drop_first();
        lemma_enc_chars_len(rest);
        assert(enc_chars(s) == enc_char(c) + enc_chars(rest));
        lemma_subrange_split(b, i, enc_char(c), enc_chars(rest));
        lemma_dec_char_enc(c, b, i);
        lemma_dec_chars_enc(rest, b, i + 4);
        assert(seq![c] + rest =~= s);
    }
}

pub proof fn lemma_dec_str_enc(s: Seq<char>, b: Seq<u8>, i: int)
    requires
        0 <= i,
        s.len() <= u64::MAX,
        i + enc_str(s).len() <= b.len(),
        b.subrange(i, i + enc_str(s).len()) == enc_str(s),
    ensures
        dec_str(b, i) == Some((s, i + enc_str(s).len())),
{
    lemma_enc_chars_len(s);
    assert(enc_str(s).len() == 8 + 4 * s.len());
    lemma_subrange_split(b, i, enc_u64(s.len() as u64), enc_chars(s));
    lemma_dec_u64_enc(s.len() as u64, b, i);
    lemma_dec_chars_enc(s, b, i + 8);
}

pub proof fn lemma_enc_list_append<T>(s1: Seq<T>, s2: Seq<T>, f: spec_fn(T) -> Seq<u8>)
    ensures
        enc_list(s1 + s2, f) == enc_list(s1, f) + enc_list(s2, f),
    decreases s1.len(),
{
    if s1.len() == 0 {
        assert(s1 + s2 =~= s2);
        assert(enc_list(s1, f) + enc_list(s2, f) =~= enc_list(s2, f));
    } else {
        assert((s1 + s2).first() == s1.first());
        assert((s1 + s2).drop_first() =~= s1.drop_first() + s2);
        assert((s1 + s2).len() > 0);
        lemma_enc_list_append(s1.drop_first(), s2, f);
        assert(enc_list(s1 + s2, f) =~= enc_list(s1, f) + enc_list(s2, f));
    }
}

/// Decoding a run of encoded elements yields them back, provided the
/// element decoder inverts the element encoder wherever its encoding sits
/// in the buffer.
pub proof fn lemma_dec_list_enc<T>(
    s: Seq<T>,
    f: spec_fn(T) -> Seq<u8>,
    df: spec_fn(Seq<u8>, int) -> Option<(T, int)>,
    b: Seq<u8>,
    i: int,
)
    requires
        0 <= i,
        i + enc_list(s, f).len() <= b.len(),
        b.subrange(i, i + enc_list(s, f).len()) == enc_list(s, f),
        forall|k: int, j: int|
            #![trigger f(s[k]), df(b, j)]
            0 <= k < s.len() && 0 <= j && j + f(s[k]).len() <= b.len()
                && b.subrange(j, j + f(s[k]).len()) == f(s[k])
                ==> df(b, j) == Some((s[k], j + f(s[k]).len())),
    ensures
        dec_list(b, i, s.len() as int, df) == Some((s, i + enc_list(s, f).len())),
    decreases s.len(),
{
    if s.len() > 0 {
        let v = s.first();
        let rest = s.drop_first();
        let e0 = f(v);
        let erest = enc_list(rest, f);
        assert(enc_list(s, f) == e0 + erest);
        lemma_subrange_split(b, i, e0, erest);
        assert(f(s[0]) == e0);
        assert(df(b, i) == Some((v, i + e0.len())));
        assert forall|k: int, j: int|
            0 <= k < rest.len() && 0 <= j && j + f(rest[k]).len() <= b.len()
                && b.subrange(j, j + f(rest[k]).len()) == f(rest[k])
            implies #[trigger] df(b, j) == Some((rest[k], j + #[trigger] f(rest[k]).len())) by {
            assert(rest[k] == s[k + 1]);
        }
        lemma_dec_list_enc(rest, f, df, b, i + e0.len());
        assert(seq![v] + rest =~= s);
    }
}

/// The counted form of [`lemma_dec_list_enc`].
pub proof fn lemma_dec_counted_enc<T>(
    s: Seq<T>,
    f: spec_fn(T) -> Seq<u8>,
    df: spec_fn(Seq<u8>, int) -> Option<(T, int)>,
    b: Seq<u8>,
    i: int,
)
    requires
        0 <= i,
        s.len() <= u64::MAX,
        i + enc_counted(s, f).len() <= b.len(),
        b.subrange(i, i + enc_counted(s, f).len()) == enc_counted(s, f),
        forall|k: int, j: int|
            #![trigger f(s[k]), df(b, j)]
            0 <= k < s.len() && 0 <= j && j + f(s[k]).len() <= b.len()
                && b.subrange(j, j + f(s[k]).len()) == f(s[k])
                ==> df(b, j) == Some((s[k], j + f(s[k]).len())),
    ensures
        dec_counted(b, i, df) == Some((s, i + enc_counted(s, f).len())),
{
    assert(enc_counted(s, f).len() == 8 + enc_list(s, f).len());
    lemma_subrange_split(b, i, enc_u64(s.len() as u64), enc_list(s, f));
    lemma_dec_u64_enc(s.len() as u64, b, i);
    lemma_dec_list_enc(s, f, df, b, i + 8);
}

// ------------------------------------------------------------- executable

/// Appends one character. Relies on `String::push`: it appends exactly the
/// given character.
#[verifier::external_body]
pub(crate) fn push_char(s: &mut String, c: char)
    ensures
        final(s)@ == old(s)@.push(c),
{
    s.push(c);
}

/// Relies on `char::from_u32`: it returns the character of a valid code
/// point — anything below the surrogate range, or between it and the
/// Unicode maximum — and nothing for the rest.
pub assume_specification[ char::from_u32 ](u: u32) -> (r: Option<char>)
    ensures
        match r {
            Some(c) => valid_codepoint(u) && c == u as char,
            None => !valid_codepoint(u),
        },
;

pub fn write_u8(out: &mut Vec<u8>, x: u8)
    ensures
        final(out)@ == old(out)@ + enc_u8(x),
{
    out.push(x);
    proof {
        assert(out@ =~= old(out)@ + enc_u8(x));
    }
}

pub fn write_u32(out: &mut Vec<u8>, x: u32)
    ensures
        final(out)@ == old(out)@ + enc_u32(x),
{
    out.push((x % 0x100) as u8);
    out.push(((x / 0x100) % 0x100) as u8);
    out.push(((x / 0x10000) % 0x100) as u8);
    out.push(((x / 0x1000000) % 0x100) as u8);
    proof {
        assert(out@ =~= old(out)@ + enc_u32(x));
    }
}

pub fn write_u64(out: &mut Vec<u8>, x: u64)
    ensures
        final(out)@ == old(out)@ + enc_u64(x),
{
    out.push((x % 0x100) as u8);
    out.push(((x / 0x100) % 0x100) as u8);
    out.push(((x / 0x10000) % 0x100) as u8);
    out.push(((x / 0x1000000) % 0x100) as u8);
    out.push(((x / 0x100000000) % 0x100) as u8);
    out.push(((x / 0x10000000000) % 0x100) as u8);
    out.push(((x / 0x1000000000000) % 0x100) as u8);
    out.push(((x / 0x100000000000000) % 0x100) as u8);
    proof {
        assert(out@ =~= old(out)@ + enc_u64(x));
    }
}

pub fn write_i64(out: &mut Vec<u8>, x: i64)
    ensures
        final(out)@ == old(out)@ + enc_i64(x),
{
    write_u64(out, x as u64);
}

pub fn write_bool(out: &mut Vec<u8>, v: bool)
    ensures
        final(out)@ == old(out)@ + enc_bool(v),
{
    out.push(if v {
        1
    } else {
        0
    });
    proof {
        assert(out@ =~= old(out)@ + enc_bool(v));
    }
}

pub fn write_str(out: &mut Vec<u8>, s: &String)
    ensures
        final(out)@ == old(out)@ + enc_str(s@),
{
    let sl: &str = s.as_str();
    let n = sl.unicode_len();
    write_u64(out, n as u64);
    let mut i: usize = 0;
    proof {
        assert(enc_chars(s@.take(0)) =~= Seq::<u8>::empty());
        assert(out@ =~= old(out)@ + enc_u64(n as u64) + enc_chars(s@.take(0)));
    }
    while i < n
        invariant
            n == s@.len(),
            sl@ == s@,
            i <= n,
            out@ == old(out)@ + enc_u64(n as u64) + enc_chars(s@.take(i as int)),
        decreases n - i,
    {
        let c = sl.get_char(i);
        write_u32(out, c as u32);
        proof {
            assert(s@.take(i + 1) =~= s@.take(i as int) + seq![s@[i as int]]);
            lemma_enc_chars_append(s@.take(i as int), seq![s@[i as int]]);
            lemma_enc_chars_singleton(s@[i as int]);
            assert(out@ =~= old(out)@ + enc_u64(n as u64) + enc_chars(s@.take(i + 1)));
        }
        i += 1;
    }
    proof {
        assert(s@.take(n as int) =~= s@);
        assert(out@ =~= old(out)@ + enc_str(s@));
    }
}

pub fn read_u8(b: &Vec<u8>, i: usize) -> (r: Option<(u8, usize)>)
    ensures
        match r {
            Some((v, j)) => dec_u8(b@, i as int) == Some((v, j as int)),
            None => dec_u8(b@, i as int) is None,
        },
{
    if b.len() < 1 || i > b.len() - 1 {
        return None;
    }
    Some((b[i], i + 1))
}

pub fn read_u32(b: &Vec<u8>, i: usize) -> (r: Option<(u32, usize)>)
    ensures
        match r {
            Some((v, j)) => dec_u32(b@, i as int) == Some((v, j as int)),
            None => dec_u32(b@, i as int) is None,
        },
{
    if b.len() < 4 || i > b.len() - 4 {
        return None;
    }
    let v: u32 = (b[i] as u32) + 0x100 * (b[i + 1] as u32) + 0x10000 * (b[i + 2] as u32)
        + 0x1000000 * (b[i + 3] as u32);
    Some((v, i + 4))
}

pub fn read_u64(b: &Vec<u8>, i: usize) -> (r: Option<(u64, usize)>)
    ensures
        match r {
            Some((v, j)) => dec_u64(b@, i as int) == Some((v, j as int)),
            None => dec_u64(b@, i as int) is None,
        },
{
    if b.len() < 8 || i > b.len() - 8 {
        return None;
    }
    let v: u64 = (b[i] as u64) + 0x100 * (b[i + 1] as u64) + 0x10000 * (b[i + 2] as u64)
        + 0x1000000 * (b[i + 3] as u64) + 0x100000000 * (b[i + 4] as u64)
        + 0x10000000000 * (b[i + 5] as u64) + 0x1000000000000 * (b[i + 6] as u64)
        + 0x100000000000000 * (b[i + 7] as u64);
    Some((v, i + 8))
}

pub fn read_i64(b: &Vec<u8>, i: usize) -> (r: Option<(i64, usize)>)
    ensures
        match r {
            Some((v, j)) => dec_i64(b@, i as int) == Some((v, j as int)),
            None => dec_i64(b@, i as int) is None,
        },
{
    match read_u64(b, i) {
        Some((u, j)) => Some((u as i64, j)),
        None => None,
    }
}

pub fn read_bool(b: &Vec<u8>, i: usize) -> (r: Option<(bool, usize)>)
    ensures
        match r {
            Some((v, j)) => dec_bool(b@, i as int) == Some((v, j as int)),
            None => dec_bool(b@, i as int) is None,
        },
{
    match read_u8(b, i) {
        Some((t, j)) => {
            if t == 0 {
                Some((false, j))
            } else if t == 1 {
                Some((true, j))
            } else {
                None
            }
        },
        None => None,
    }
}

pub fn read_char(b: &Vec<u8>, i: usize) -> (r: Option<(char, usize)>)
    ensures
        match r {
            Some((v, j)) => dec_char(b@, i as int) == Some((v, j as int)),
            None => dec_char(b@, i as int) is None,
        },
{
    match read_u32(b, i) {
        Some((u, j)) => match char::from_u32(u) {
            Some(c) => Some((c, j)),
            None => None,
        },
        None => None,
    }
}

pub fn read_str(b: &Vec<u8>, i: usize) -> (r: Option<(String, usize)>)
    ensures
        match r {
            Some((s, j)) => dec_str(b@, i as int) == Some((s@, j as int)),
            None => dec_str(b@, i as int) is None,
        },
{
    let (n, start) = match read_u64(b, i) {
        Some(p) => p,
        None => {
            return None;
        },
    };
    let mut acc = String::new();
    let mut cur: usize = start;
    let mut k: u64 = 0;
    while k < n
        invariant
            k <= n,
            cur <= b@.len(),
            dec_str(b@, i as int) == dec_chars(b@, start as int, n as int),
            ({
                match dec_chars(b@, cur as int, (n - k) as int) {
                    Some((t, e)) => dec_chars(b@, start as int, n as int)
                        == Some((acc@ + t, e)),
                    None => dec_chars(b@, start as int, n as int) is None,
                }
            }),
        decreases n - k,
    {
        match read_char(b, cur) {
            Some((c, j)) => {
                proof {
                    let tail = dec_chars(b@, j as int, (n - k - 1) as int);
                    if tail is Some {
                        let (t2, e) = tail.unwrap();
                        assert(acc@ + (seq![c] + t2) =~= acc@.push(c) + t2);
                    }
                }
                push_char(&mut acc, c);
                cur = j;
            },
            None => {
                return None;
            },
        }
        k = k + 1;
    }
    proof {
        assert(dec_chars(b@, cur as int, 0) == Some((Seq::<char>::empty(), cur as int)));
        assert(acc@ + Seq::<char>::empty() =~= acc@);
    }
    Some((acc, cur))
}

} // verus!
