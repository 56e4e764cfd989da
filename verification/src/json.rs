//! Byte-level JSON writing primitives: string escaping, decimal rendering,
//! and comma-joined list bodies. All output is specified exactly, byte for
//! byte, by the spec functions in this module.

use vstd::prelude::*;

verus! {

/// Lowercase hexadecimal digit for a nibble.
pub open spec fn hex_digit(n: u8) -> u8
    recommends
        n < 16,
{
    if n < 10 {
        (48 + n) as u8
    } else {
        (87 + n) as u8
    }
}

/// How one byte of string content is rendered inside a JSON string literal:
/// quote and backslash are backslash-escaped, control bytes become a
/// `\u00XX` escape, and every other byte stands as itself.
pub open spec fn escape_byte(b: u8) -> Seq<u8> {
    if b == 34 {
        seq![92u8, 34u8]
    } else if b == 92 {
        seq![92u8, 92u8]
    } else if b < 32 {
        seq![92u8, 117u8, 48u8, 48u8, hex_digit(b / 16), hex_digit(b % 16)]
    } else {
        seq![b]
    }
}

/// The escaped rendering of a whole byte sequence.
pub open spec fn escape_bytes(s: Seq<u8>) -> Seq<u8>
    decreases s.len(),
{
    if s.len() == 0 {
        Seq::empty()
    } else {
        escape_byte(s[0]) + escape_bytes(s.skip(1))
    }
}

/// A JSON string literal: quote, escaped content, quote.
pub open spec fn json_string(s: Seq<u8>) -> Seq<u8> {
    seq![34u8] + escape_bytes(s) + seq![34u8]
}

/// The decimal rendering of a natural number, most significant digit first.
pub open spec fn dec_rep(n: nat) -> Seq<u8>
    decreases n,
{
    if n < 10 {
        seq![(48 + n) as u8]
    } else {
        dec_rep(n / 10) + seq![(48 + n % 10) as u8]
    }
}

/// The items of a JSON array joined by commas, without the brackets.
pub open spec fn join_comma(items: Seq<Seq<u8>>) -> Seq<u8>
    decreases items.len(),
{
    if items.len() == 0 {
        Seq::empty()
    } else if items.len() == 1 {
        items[0]
    } else {
        join_comma(items.drop_last()) + seq![44u8] + items.last()
    }
}

/// A JSON array holding the given pre-rendered items.
pub open spec fn json_list(items: Seq<Seq<u8>>) -> Seq<u8> {
    seq![91u8] + join_comma(items) + seq![93u8]
}

pub proof fn lemma_escape_bytes_append(s: Seq<u8>, t: Seq<u8>)
    ensures
        escape_bytes(s + t) == escape_bytes(s) + escape_bytes(t),
    decreases s.len(),
{
    if s.len() == 0 {
        assert(s + t =~= t);
        assert(escape_bytes(s) + escape_bytes(t) =~= escape_bytes(t));
    } else {
        assert((s + t).skip(1) =~= s.skip(1) + t);
        lemma_escape_bytes_append(s.skip(1), t);
        assert(escape_bytes(s + t) =~= escape_bytes(s) + escape_bytes(t));
    }
}

pub proof fn lemma_escape_bytes_single(b: u8)
    ensures
        escape_bytes(seq![b]) == escape_byte(b),
{
    let u = seq![b];
    assert(u.skip(1) =~= Seq::<u8>::empty());
    assert(escape_bytes(u) == escape_byte(b) + escape_bytes(Seq::<u8>::empty()));
    assert(escape_byte(b) + Seq::<u8>::empty() =~= escape_byte(b));
}

/// Extending the escaped prefix by one source byte appends that byte's escape.
pub proof fn lemma_escape_take_succ(s: Seq<u8>, i: int)
    requires
        0 <= i < s.len(),
    ensures
        escape_bytes(s.take(i + 1)) == escape_bytes(s.take(i)) + escape_byte(s[i]),
{
    assert(s.take(i + 1) =~= s.take(i) + seq![s[i]]);
    lemma_escape_bytes_append(s.take(i), seq![s[i]]);
    lemma_escape_bytes_single(s[i]);
}

/// Extending a joined prefix by one item appends a comma (except for the
/// first item) and the item.
pub proof fn lemma_join_take_succ(items: Seq<Seq<u8>>, i: int)
    requires
        0 <= i < items.len(),
    ensures
        join_comma(items.take(i + 1)) == if i == 0 {
            items[0]
        } else {
            join_comma(items.take(i)) + seq![44u8] + items[i]
        },
{
    if i == 0 {
        assert(items.take(1).len() == 1);
        assert(items.take(1)[0] == items[0]);
    } else {
        assert(items.take(i + 1).drop_last() =~= items.take(i));
        assert(items.take(i + 1).last() == items[i]);
    }
}

/// Appends the JSON string literal for `s` to `out`.
pub fn write_json_string(out: &mut Vec<u8>, s: &[u8])
    ensures
        final(out)@ == old(out)@ + json_string(s@),
{
    out.push(34);
    let mut i: usize = 0;
    while i < s.len()
        invariant
            i <= s@.len(),
            out@ == old(out)@ + seq![34u8] + escape_bytes(s@.take(i as int)),
        decreases s@.len() - i,
    {
        let b = s[i];
        if b == 34 {
            out.push(92);
            out.push(34);
        } else if b == 92 {
            out.push(92);
            out.push(92);
        } else if b < 32 {
            out.push(92);
            out.push(117);
            out.push(48);
            out.push(48);
            let hi: u8 = b / 16;
            let lo: u8 = b % 16;
            out.push(if hi < 10 { 48 + hi } else { 87 + hi });
            out.push(if lo < 10 { 48 + lo } else { 87 + lo });
        } else {
            out.push(b);
        }
        proof {
            lemma_escape_take_succ(s@, i as int);
            assert(out@ =~= old(out)@ + seq![34u8] + escape_bytes(s@.take(i + 1)));
        }
        i += 1;
    }
    out.push(34);
    proof {
        assert(s@.take(s@.len() as int) =~= s@);
        assert(out@ =~= old(out)@ + json_string(s@));
    }
}

/// Appends a quoted object key followed by a colon.
pub fn write_object_key(out: &mut Vec<u8>, key: &[u8])
    ensures
        final(out)@ == old(out)@ + json_string(key@) + seq![58u8],
{
    write_json_string(out, key);
    out.push(58);
}

/// Appends the decimal rendering of `n`.
pub fn write_u32(out: &mut Vec<u8>, n: u32)
    ensures
        final(out)@ == old(out)@ + dec_rep(n as nat),
    decreases n,
{
    if n >= 10 {
        write_u32(out, n / 10);
    }
    let d: u8 = (n % 10) as u8;
    out.push(48 + d);
    proof {
        assert(out@ =~= old(out)@ + dec_rep(n as nat));
    }
}

} // verus!
