//! Verified base32 and base64 encoders.
//!
//! Base32 (RFC 4648, no padding needed because callers encode whole 5-byte
//! groups) renders two-factor secrets for authenticator apps.  Base64
//! (RFC 4648, standard alphabet, padded) renders PNG bytes as a data URI.

use vstd::prelude::*;

use crate::text::push_char;

verus! {

/// Character `v` of the base32 alphabet.
pub open spec fn b32_char(v: int) -> char
    recommends
        0 <= v < 32,
{
    "ABCDEFGHIJKLMNOPQRSTUVWXYZ234567"@[v]
}

/// The eight base32 characters of one whole 5-byte group.
pub open spec fn b32_group(b: Seq<u8>) -> Seq<char>
    recommends
        b.len() == 5,
{
    let v = b[0] * 0x100000000 + b[1] * 0x1000000 + b[2] * 0x10000 + b[3] * 0x100 + b[4];
    seq![
        b32_char(v / 0x800000000),
        b32_char((v / 0x40000000) % 32),
        b32_char((v / 0x2000000) % 32),
        b32_char((v / 0x100000) % 32),
        b32_char((v / 0x8000) % 32),
        b32_char((v / 0x400) % 32),
        b32_char((v / 0x20) % 32),
        b32_char(v % 32),
    ]
}

/// Base32 of a byte sequence made of whole 5-byte groups.
pub open spec fn base32_of(b: Seq<u8>) -> Seq<char>
    recommends
        b.len() % 5 == 0,
    decreases b.len(),
{
    if b.len() < 5 {
        Seq::empty()
    } else {
        b32_group(b.take(5)) + base32_of(b.skip(5))
    }
}

/// Character `v` of the standard base64 alphabet.
pub open spec fn b64_char(v: int) -> char
    recommends
        0 <= v < 64,
{
    "ABCDEFGHIJKLMNOPQRSTUVWXYZabcdefghijklmnopqrstuvwxyz0123456789+/"@[v]
}

/// The four base64 characters of one whole 3-byte group.
pub open spec fn b64_group(b: Seq<u8>) -> Seq<char>
    recommends
        b.len() == 3,
{
    let v = b[0] * 0x10000 + b[1] * 0x100 + b[2];
    seq![
        b64_char(v / 0x40000),
        b64_char((v / 0x1000) % 64),
        b64_char((v / 0x40) % 64),
        b64_char(v % 64),
    ]
}

/// The padded base64 characters of a final group of one or two bytes.
pub open spec fn b64_tail(b: Seq<u8>) -> Seq<char>
    recommends
        1 <= b.len() <= 2,
{
    if b.len() == 1 {
        seq![b64_char(b[0] as int / 4), b64_char((b[0] as int % 4) * 16), '=', '=']
    } else {
        let v = b[0] * 0x100 + b[1];
        seq![b64_char(v / 0x400), b64_char((v / 0x10) % 64), b64_char((v % 0x10) * 4), '=']
    }
}

/// Standard padded base64 of any byte sequence.
pub open spec fn base64_of(b: Seq<u8>) -> Seq<char>
    decreases b.len(),
{
    if b.len() == 0 {
        Seq::empty()
    } else if b.len() < 3 {
        b64_tail(b)
    } else {
        b64_group(b.take(3)) + base64_of(b.skip(3))
    }
}

/// Base32 distributes over splitting off whole leading groups.
pub proof fn lemma_base32_append(s: Seq<u8>, t: Seq<u8>)
    requires
        s.len() % 5 == 0,
    ensures
        base32_of(s + t) == base32_of(s) + base32_of(t),
    decreases s.len(),
{
    if s.len() == 0 {
        assert(s + t =~= t);
        assert(base32_of(s) + base32_of(t) =~= base32_of(t));
    } else {
        assert(s.len() >= 5);
        assert((s + t).len() >= 5);
        assert((s + t).take(5) =~= s.take(5));
        assert((s + t).skip(5) =~= s.skip(5) + t);
        lemma_base32_append(s.skip(5), t);
        assert(base32_of(s + t) == b32_group(s.take(5)) + (base32_of(s.skip(5)) + base32_of(t)));
        assert(b32_group(s.take(5)) + (base32_of(s.skip(5)) + base32_of(t)) =~= (b32_group(
            s.take(5),
        ) + base32_of(s.skip(5))) + base32_of(t));
    }
}

/// Base64 distributes over splitting off whole leading groups.
pub proof fn lemma_base64_append(s: Seq<u8>, t: Seq<u8>)
    requires
        s.len() % 3 == 0,
    ensures
        base64_of(s + t) == base64_of(s) + base64_of(t),
    decreases s.len(),
{
    if s.len() == 0 {
        assert(s + t =~= t);
        assert(base64_of(s) + base64_of(t) =~= base64_of(t));
    } else {
        assert(s.len() >= 3);
        assert((s + t).take(3) =~= s.take(3));
        assert((s + t).skip(3) =~= s.skip(3) + t);
        lemma_base64_append(s.skip(3), t);
        assert(base64_of(s + t) == b64_group(s.take(3)) + (base64_of(s.skip(3)) + base64_of(t)));
        assert(b64_group(s.take(3)) + (base64_of(s.skip(3)) + base64_of(t)) =~= (b64_group(
            s.take(3),
        ) + base64_of(s.skip(3))) + base64_of(t));
    }
}

/// Appends the eight base32 characters of one whole 5-byte group.
#[verifier::rlimit(100)]
fn push_b32_group(out: &mut String, b0: u8, b1: u8, b2: u8, b3: u8, b4: u8)
    ensures
        final(out)@ == old(out)@ + b32_group(seq![b0, b1, b2, b3, b4]),
{
    let alpha: &str = "ABCDEFGHIJKLMNOPQRSTUVWXYZ234567";
    proof {
        assert(alpha@.len() == 32) by {
            reveal_strlit("ABCDEFGHIJKLMNOPQRSTUVWXYZ234567");
        }
    }
    let v: u64 = (b0 as u64) * 0x100000000 + (b1 as u64) * 0x1000000 + (b2 as u64) * 0x10000 + (
    b3 as u64) * 0x100 + (b4 as u64);
    let ghost pre = out@;
    let c0 = alpha.get_char((v / 0x800000000) as usize);
    push_char(out, c0);
    let c1 = alpha.get_char(((v / 0x40000000) % 32) as usize);
    push_char(out, c1);
    let c2 = alpha.get_char(((v / 0x2000000) % 32) as usize);
    push_char(out, c2);
    let c3 = alpha.get_char(((v / 0x100000) % 32) as usize);
    push_char(out, c3);
    let c4 = alpha.get_char(((v / 0x8000) % 32) as usize);
    push_char(out, c4);
    let c5 = alpha.get_char(((v / 0x400) % 32) as usize);
    push_char(out, c5);
    let c6 = alpha.get_char(((v / 0x20) % 32) as usize);
    push_char(out, c6);
    let c7 = alpha.get_char((v % 32) as usize);
    push_char(out, c7);
    proof {
        let g = seq![b0, b1, b2, b3, b4];
        assert(g[0] == b0 && g[1] == b1 && g[2] == b2 && g[3] == b3 && g[4] == b4);
        assert(out@ =~= pre + b32_group(g));
    }
}

/// Base32 of whole 5-byte groups, as authenticator apps read a secret.
#[verifier::spinoff_prover]
#[verifier::rlimit(100)]
pub fn base32_encode(bytes: &Vec<u8>) -> (r: String)
    requires
        bytes@.len() % 5 == 0,
    ensures
        r@ == base32_of(bytes@),
{
    let mut out = String::new();
    let n = bytes.len();
    let mut i: usize = 0;
    while n - i >= 5
        invariant
            i % 5 == 0,
            i <= n,
            n == bytes@.len(),
            n % 5 == 0,
            out@ == base32_of(bytes@.take(i as int)),
        decreases n - i,
    {
        let ghost pre = out@;
        push_b32_group(&mut out, bytes[i], bytes[i + 1], bytes[i + 2], bytes[i + 3], bytes[i + 4]);
        proof {
            let g = bytes@.subrange(i as int, i + 5);
            assert(g =~= seq![bytes@[i as int], bytes@[i + 1], bytes@[i + 2], bytes@[i + 3], bytes@[i + 4]]);
            assert(out@ == pre + b32_group(g));
            lemma_base32_append(bytes@.take(i as int), g);
            assert(bytes@.take(i as int) + g =~= bytes@.take(i + 5));
            assert(base32_of(g) =~= b32_group(g) + base32_of(g.skip(5)));
            assert(g.skip(5) =~= Seq::<u8>::empty());
            assert(base32_of(g) =~= b32_group(g));
        }
        i = i + 5;
    }
    proof {
        assert(bytes@.take(n as int) =~= bytes@);
    }
    out
}

/// Standard padded base64 of any byte sequence.
#[verifier::spinoff_prover]
#[verifier::rlimit(100)]
pub fn base64_encode(bytes: &Vec<u8>) -> (r: String)
    ensures
        r@ == base64_of(bytes@),
{
    let alpha: &str = "ABCDEFGHIJKLMNOPQRSTUVWXYZabcdefghijklmnopqrstuvwxyz0123456789+/";
    proof {
        assert(alpha@.len() == 64) by {
            reveal_strlit("ABCDEFGHIJKLMNOPQRSTUVWXYZabcdefghijklmnopqrstuvwxyz0123456789+/");
        }
    }
    let mut out = String::new();
    let n = bytes.len();
    let mut i: usize = 0;
    while n - i >= 3
        invariant
            alpha@ == "ABCDEFGHIJKLMNOPQRSTUVWXYZabcdefghijklmnopqrstuvwxyz0123456789+/"@,
            alpha@.len() == 64,
            i % 3 == 0,
            i <= n,
            n == bytes@.len(),
            out@ == base64_of(bytes@.take(i as int)),
        decreases n - i,
    {
        let v: u64 = (bytes[i] as u64) * 0x10000 + (bytes[i + 1] as u64) * 0x100 + (bytes[i
            + 2] as u64);
        let ghost pre = out@;
        let c0 = alpha.get_char((v / 0x40000) as usize);
        push_char(&mut out, c0);
        let c1 = alpha.get_char(((v / 0x1000) % 64) as usize);
        push_char(&mut out, c1);
        let c2 = alpha.get_char(((v / 0x40) % 64) as usize);
        push_char(&mut out, c2);
        let c3 = alpha.get_char((v % 64) as usize);
        push_char(&mut out, c3);
        proof {
            let g = bytes@.subrange(i as int, i + 3);
            assert(g.len() == 3);
            assert(g[0] == bytes@[i as int] && g[1] == bytes@[i + 1] && g[2] == bytes@[i + 2]);
            assert(out@ =~= pre + b64_group(g));
            lemma_base64_append(bytes@.take(i as int), g);
            assert(bytes@.take(i as int) + g =~= bytes@.take(i + 3));
            assert(base64_of(g) =~= b64_group(g) + base64_of(g.skip(3)));
            assert(g.skip(3) =~= Seq::<u8>::empty());
            assert(base64_of(g) =~= b64_group(g));
        }
        i = i + 3;
    }
    let ghost whole = bytes@.take(i as int);
    let ghost tail = bytes@.skip(i as int);
    proof {
        lemma_base64_append(whole, tail);
        assert(whole + tail =~= bytes@);
        assert(tail.len() == n - i < 3);
    }
    if i < n {
        let ghost pre = out@;
        if n - i == 1 {
            let b0 = bytes[i];
            let c0 = alpha.get_char((b0 / 4) as usize);
            push_char(&mut out, c0);
            let c1 = alpha.get_char(((b0 % 4) * 16) as usize);
            push_char(&mut out, c1);
            push_char(&mut out, '=');
            push_char(&mut out, '=');
            proof {
                assert(tail.len() == 1 && tail[0] == bytes@[i as int]);
                assert(out@ =~= pre + b64_tail(tail));
                assert(base64_of(tail) == b64_tail(tail));
            }
        } else {
            let v: u64 = (bytes[i] as u64) * 0x100 + (bytes[i + 1] as u64);
            let c0 = alpha.get_char((v / 0x400) as usize);
            push_char(&mut out, c0);
            let c1 = alpha.get_char(((v / 0x10) % 64) as usize);
            push_char(&mut out, c1);
            let c2 = alpha.get_char(((v % 0x10) * 4) as usize);
            push_char(&mut out, c2);
            push_char(&mut out, '=');
            proof {
                assert(tail.len() == 2 && tail[0] == bytes@[i as int] && tail[1] == bytes@[i + 1]);
                assert(out@ =~= pre + b64_tail(tail));
                assert(base64_of(tail) == b64_tail(tail));
            }
        }
    } else {
        proof {
            assert(tail =~= Seq::<u8>::empty());
            assert(out@ =~= base64_of(bytes@));
        }
    }
    out
}

} // verus!
