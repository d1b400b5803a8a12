//! Marker helpers that do not touch the marker database: symbols, and the
//! byte form of the id counter the database stores.
use vstd::prelude::*;

verus! {

/// Printable ASCII other than space (`char::is_ascii_graphic`): U+0021–U+007E.
pub open spec fn is_ascii_graphic_char(c: char) -> bool {
    0x21 <= (c as u32) && (c as u32) <= 0x7e
}

/// The VT-100 stand-in for a marker symbol: its first character when that is
/// printable ASCII, else `*`.
pub open spec fn ascii_symbol_of(symbol: Seq<char>) -> char {
    if symbol.len() > 0 && is_ascii_graphic_char(symbol[0]) {
        symbol[0]
    } else {
        '*'
    }
}

/// Return an ASCII-safe symbol for VT-100 rendering.
pub fn ascii_symbol(symbol: &str) -> (c: char)
    ensures
        c == ascii_symbol_of(symbol@),
{
    if symbol.unicode_len() == 0 {
        return '*';
    }
    let c = symbol.get_char(0);
    let u = c as u32;
    if 0x21 <= u && u <= 0x7e {
        c
    } else {
        '*'
    }
}

/// `256^k`.
pub open spec fn pow256(k: nat) -> nat
    decreases k,
{
    if k == 0 {
        1
    } else {
        256 * pow256((k - 1) as nat)
    }
}

/// Value of bytes read most significant first.
pub open spec fn be_value(b: Seq<u8>) -> nat
    decreases b.len(),
{
    if b.len() == 0 {
        0
    } else {
        be_value(b.drop_last()) * 256 + b.last() as nat
    }
}

/// The last `k` bytes of `v`, most significant first.
pub open spec fn be_bytes(v: nat, k: nat) -> Seq<u8>
    decreases k,
{
    if k == 0 {
        Seq::empty()
    } else {
        be_bytes(v / 256, (k - 1) as nat).push((v % 256) as u8)
    }
}

/// `k` bytes hold values below `256^k`.
proof fn lemma_be_value_bound(b: Seq<u8>)
    ensures
        be_value(b) < pow256(b.len()),
    decreases b.len(),
{
    if b.len() > 0 {
        lemma_be_value_bound(b.drop_last());
    }
}

/// Reading back the last `k` bytes of `v` gives `v` modulo `256^k`.
proof fn lemma_be_round_trip(v: nat, k: nat)
    ensures
        be_bytes(v, k).len() == k,
        be_value(be_bytes(v, k)) == v % pow256(k),
    decreases k,
{
    if k > 0 {
        lemma_be_round_trip(v / 256, (k - 1) as nat);
        let b = be_bytes(v, k);
        assert(b.drop_last() =~= be_bytes(v / 256, (k - 1) as nat));
        lemma_pow256_positive((k - 1) as nat);
        vstd::arithmetic::div_mod::lemma_mod_breakdown(v as int, 256, pow256((k - 1) as nat) as int);
    }
}

/// `256^k` is positive.
proof fn lemma_pow256_positive(k: nat)
    ensures
        pow256(k) > 0,
    decreases k,
{
    if k > 0 {
        lemma_pow256_positive((k - 1) as nat);
    }
}

/// The id counter held in a stored value: its first eight bytes, most
/// significant first; 0 when nothing is stored.
pub open spec fn counter_of(stored: Option<Seq<u8>>) -> nat {
    match stored {
        Some(b) => be_value(b.take(8)),
        None => 0,
    }
}

/// Reads the id counter from its stored bytes.
pub fn stored_counter(stored: Option<&[u8]>) -> (n: u64)
    requires
        stored matches Some(b) ==> b@.len() >= 8,
    ensures
        n == counter_of(
            match stored {
                Some(b) => Some(b@),
                None => None,
            },
        ),
{
    match stored {
        None => 0,
        Some(b) => {
            let mut n: u64 = 0;
            let mut i: usize = 0;
            while i < 8
                invariant
                    i <= 8,
                    b@.len() >= 8,
                    n == be_value(b@.take(i as int)),
                decreases 8 - i,
            {
                proof {
                    lemma_be_value_bound(b@.take(i as int));
                    assert(pow256(i as nat) <= pow256(7)) by {
                        lemma_pow256_monotone(i as nat, 7);
                    }
                    assert(pow256(7) == 0x100_0000_0000_0000) by {
                        reveal_with_fuel(pow256, 8);
                    }
                    assert(b@.take(i as int + 1).drop_last() =~= b@.take(i as int));
                }
                n = n * 256 + b[i] as u64;
                i = i + 1;
            }
            n
        },
    }
}

/// `256^i <= 256^j` for `i <= j`.
proof fn lemma_pow256_monotone(i: nat, j: nat)
    requires
        i <= j,
    ensures
        pow256(i) <= pow256(j),
    decreases j,
{
    if i < j {
        lemma_pow256_monotone(i, (j - 1) as nat);
        lemma_pow256_positive((j - 1) as nat);
    }
}

/// Appends the last `k` bytes of `v`, most significant first.
fn push_be_bytes(out: &mut Vec<u8>, v: u64, k: usize)
    ensures
        final(out)@ == old(out)@ + be_bytes(v as nat, k as nat),
    decreases k,
{
    if k > 0 {
        push_be_bytes(out, v / 256, k - 1);
        out.push((v % 256) as u8);
        proof {
            assert(be_bytes(v as nat, k as nat) == be_bytes((v / 256) as nat, (k - 1) as nat).push(
                (v % 256) as u8,
            ));
        }
    } else {
        assert(old(out)@ + be_bytes(v as nat, 0) =~= old(out)@);
    }
}

/// The bytes that store the id counter after one id is handed out: the
/// counter plus one, in eight bytes, most significant first.
pub fn bumped_counter(stored: Option<&[u8]>) -> (bytes: Vec<u8>)
    requires
        stored matches Some(b) ==> b@.len() >= 8,
        counter_of(
            match stored {
                Some(b) => Some(b@),
                None => None,
            },
        ) < u64::MAX,
    ensures
        bytes@.len() == 8,
        bytes@ == be_bytes(
            counter_of(
                match stored {
                    Some(b) => Some(b@),
                    None => None,
                },
            ) + 1,
            8,
        ),
        be_value(bytes@) == counter_of(
            match stored {
                Some(b) => Some(b@),
                None => None,
            },
        ) + 1,
{
    let n = stored_counter(stored);
    let mut bytes: Vec<u8> = Vec::new();
    push_be_bytes(&mut bytes, n + 1, 8);
    proof {
        assert(Seq::<u8>::empty() + be_bytes((n + 1) as nat, 8) =~= be_bytes((n + 1) as nat, 8));
        lemma_be_round_trip((n + 1) as nat, 8);
        assert(pow256(8) == 0x1_0000_0000_0000_0000) by {
            reveal_with_fuel(pow256, 9);
        }
        vstd::arithmetic::div_mod::lemma_small_mod((n + 1) as nat, pow256(8));
    }
    bytes
}

/// Reading back the bytes a bump wrote gives the next counter value: each
/// id handed out is one more than the one before.
pub proof fn lemma_bumped_counter_reads_back(stored: Option<Seq<u8>>)
    requires
        stored matches Some(b) ==> b.len() >= 8,
        counter_of(stored) < u64::MAX,
    ensures
        counter_of(Some(be_bytes(counter_of(stored) + 1, 8))) == counter_of(stored) + 1,
{
    let v = counter_of(stored) + 1;
    lemma_be_round_trip(v, 8);
    assert(be_bytes(v, 8).take(8) =~= be_bytes(v, 8));
    assert(pow256(8) == 0x1_0000_0000_0000_0000) by {
        reveal_with_fuel(pow256, 9);
    }
    vstd::arithmetic::div_mod::lemma_small_mod(v, pow256(8));
}

/// The database key of the marker with id `id`: the id in eight bytes, most
/// significant first, so that keys sort as ids do.
pub fn marker_key(id: u64) -> (key: Vec<u8>)
    ensures
        key@ == be_bytes(id as nat, 8),
        key@.len() == 8,
        be_value(key@) == id,
{
    let mut key: Vec<u8> = Vec::new();
    push_be_bytes(&mut key, id, 8);
    proof {
        assert(Seq::<u8>::empty() + be_bytes(id as nat, 8) =~= be_bytes(id as nat, 8));
        lemma_be_round_trip(id as nat, 8);
        assert(pow256(8) == 0x1_0000_0000_0000_0000) by {
            reveal_with_fuel(pow256, 9);
        }
        vstd::arithmetic::div_mod::lemma_small_mod(id as nat, pow256(8));
    }
    key
}

/// Different ids get different keys, so no marker overwrites another.
pub proof fn lemma_marker_keys_distinct(a: u64, b: u64)
    requires
        a != b,
    ensures
        be_bytes(a as nat, 8) != be_bytes(b as nat, 8),
{
    lemma_be_round_trip(a as nat, 8);
    lemma_be_round_trip(b as nat, 8);
    assert(pow256(8) == 0x1_0000_0000_0000_0000) by {
        reveal_with_fuel(pow256, 9);
    }
    vstd::arithmetic::div_mod::lemma_small_mod(a as nat, pow256(8));
    vstd::arithmetic::div_mod::lemma_small_mod(b as nat, pow256(8));
}

/// Does `a` come before `b` in dictionary order: equal up to some byte, and
/// smaller there?
pub open spec fn lex_lt(a: Seq<u8>, b: Seq<u8>) -> bool {
    exists|i: int|
        0 <= i < a.len() && i < b.len() && a.subrange(0, i) == b.subrange(0, i) && a[i] < b[i]
}

/// The last `k` bytes of a smaller value come first in dictionary order.
proof fn lemma_be_bytes_ordered(x: nat, y: nat, k: nat)
    requires
        x < y,
        y < pow256(k),
    ensures
        lex_lt(be_bytes(x, k), be_bytes(y, k)),
    decreases k,
{
    if k == 0 {
        assert(false);
    } else {
        let p = pow256((k - 1) as nat);
        lemma_pow256_positive((k - 1) as nat);
        let xq = x / 256;
        let yq = y / 256;
        assert(xq <= yq) by (nonlinear_arith)
            requires
                x < y,
                xq == x / 256,
                yq == y / 256,
        ;
        assert(yq < p) by (nonlinear_arith)
            requires
                y < 256 * p,
                yq == y / 256,
        ;
        let bx = be_bytes(x, k);
        let by = be_bytes(y, k);
        lemma_be_round_trip(xq, (k - 1) as nat);
        lemma_be_round_trip(yq, (k - 1) as nat);
        if xq < yq {
            lemma_be_bytes_ordered(xq, yq, (k - 1) as nat);
            let hx = be_bytes(xq, (k - 1) as nat);
            let hy = be_bytes(yq, (k - 1) as nat);
            let i = choose|i: int|
                0 <= i < hx.len() && i < hy.len() && hx.subrange(0, i) == hy.subrange(0, i) && hx[i]
                    < hy[i];
            assert(bx.subrange(0, i) =~= hx.subrange(0, i));
            assert(by.subrange(0, i) =~= hy.subrange(0, i));
            assert(bx[i] == hx[i] && by[i] == hy[i]);
        } else {
            assert(x % 256 < y % 256) by (nonlinear_arith)
                requires
                    x < y,
                    x / 256 == y / 256,
            ;
            let i = (k - 1) as int;
            assert(bx.subrange(0, i) =~= be_bytes(xq, (k - 1) as nat));
            assert(by.subrange(0, i) =~= be_bytes(yq, (k - 1) as nat));
            assert(bx[i] == (x % 256) as u8 && by[i] == (y % 256) as u8);
        }
    }
}

/// Marker keys sort as their ids do: a smaller id's key comes first in the
/// database's dictionary order of keys.
pub proof fn lemma_marker_keys_sort_by_id(a: u64, b: u64)
    requires
        a < b,
    ensures
        lex_lt(be_bytes(a as nat, 8), be_bytes(b as nat, 8)),
{
    assert(pow256(8) == 0x1_0000_0000_0000_0000) by {
        reveal_with_fuel(pow256, 9);
    }
    lemma_be_bytes_ordered(a as nat, b as nat, 8);
}

} // verus!
