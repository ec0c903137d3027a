//! Base32 over the lowercase RFC 4648 alphabet, without padding.
//!
//! The bytes are read as one string of bits, most significant bit first. The
//! string is cut into groups of five; the last group is filled with zero bits
//! on its low end. Each group selects one character of the alphabet. Decoding
//! reads the characters back into a string of bits and cuts it into whole
//! bytes; bits left over at the end are dropped.

use vstd::arithmetic::div_mod::lemma_fundamental_div_mod_converse;
use vstd::arithmetic::power2::{lemma2_to64, lemma_pow2_unfold, pow2};
use vstd::bits::{lemma_u64_low_bits_mask_is_mod, lemma_u64_shl_is_mul, lemma_u64_shr_is_div};
use vstd::prelude::*;
use vstd::string::*;

verus! {

/// Bit `k` of `v`, counted from the least significant bit.
pub open spec fn bit_at(v: u8, k: int) -> bool {
    (v >> (k as u8)) & 1 == 1
}

/// The bits of `data`, eight per byte, most significant first.
pub open spec fn bytes_bits(data: Seq<u8>) -> Seq<bool> {
    Seq::new(8 * data.len(), |i: int| bit_at(data[i / 8], 7 - i % 8))
}

/// The bits of `symbols`, five per symbol, most significant first.
pub open spec fn symbols_bits(symbols: Seq<u8>) -> Seq<bool> {
    Seq::new(5 * symbols.len(), |i: int| bit_at(symbols[i / 5], 4 - i % 5))
}

/// Bit `i` of `bits` as a number; zero outside the string.
pub open spec fn bit_value(bits: Seq<bool>, i: int) -> nat {
    if 0 <= i < bits.len() && bits[i] {
        1
    } else {
        0
    }
}

/// The number written by the `width` bits of `bits` from `start` on, most
/// significant first.
pub open spec fn window(bits: Seq<bool>, start: int, width: nat) -> nat
    decreases width,
{
    if width == 0 {
        0
    } else {
        2 * window(bits, start, (width - 1) as nat) + bit_value(bits, start + width - 1)
    }
}

/// Group `j` of the bits of `data`.
pub open spec fn group(data: Seq<u8>, j: int) -> u8 {
    window(bytes_bits(data), 5 * j, 5) as u8
}

/// The five-bit groups of `data`.
pub open spec fn encode_symbols(data: Seq<u8>) -> Seq<u8> {
    Seq::new(((8 * data.len() + 4) / 5) as nat, |j: int| group(data, j))
}

/// The whole bytes that `symbols` hold.
pub open spec fn decode_symbols(symbols: Seq<u8>) -> Seq<u8> {
    Seq::new(
        ((5 * symbols.len()) / 8) as nat,
        |i: int| window(symbols_bits(symbols), 8 * i, 8) as u8,
    )
}

/// The character that stands for the group `v`.
pub open spec fn symbol_char(v: u8) -> char {
    "abcdefghijklmnopqrstuvwxyz234567"@[v as int]
}

/// Whether `c` belongs to the alphabet.
pub open spec fn is_symbol_char(c: char) -> bool {
    ('a' <= c && c <= 'z') || ('2' <= c && c <= '7')
}

/// The group that `c` stands for; zero for a character outside the alphabet.
pub open spec fn char_symbol(c: char) -> u8 {
    if 'a' <= c && c <= 'z' {
        (c as u8 - 'a' as u8) as u8
    } else if '2' <= c && c <= '7' {
        (c as u8 - '2' as u8 + 26) as u8
    } else {
        0
    }
}

/// The text that encodes `data`.
pub open spec fn encode_text(data: Seq<u8>) -> Seq<char> {
    encode_symbols(data).map_values(|v: u8| symbol_char(v))
}

/// Whether every character of `text` belongs to the alphabet.
pub open spec fn is_base32_text(text: Seq<char>) -> bool {
    forall|i: int| 0 <= i < text.len() ==> is_symbol_char(#[trigger] text[i])
}

/// The bytes that `text` encodes, where every character belongs to the
/// alphabet.
pub open spec fn decode_text(text: Seq<char>) -> Option<Seq<u8>> {
    if is_base32_text(text) {
        Some(decode_symbols(text_symbols(text)))
    } else {
        None
    }
}

/// A window of `width` bits is below two to the `width`.
pub proof fn lemma_window_bound(bits: Seq<bool>, start: int, width: nat)
    ensures
        window(bits, start, width) < pow2(width),
    decreases width,
{
    if width == 0 {
        lemma2_to64();
    } else {
        lemma_window_bound(bits, start, (width - 1) as nat);
        lemma_pow2_unfold(width);
    }
}

/// A window of `a + b` bits is its first `a` bits, moved up by `b` places,
/// plus its last `b` bits.
pub proof fn lemma_window_split(bits: Seq<bool>, start: int, a: nat, b: nat)
    ensures
        window(bits, start, a + b) == window(bits, start, a) * pow2(b) + window(
            bits,
            start + a,
            b,
        ),
    decreases b,
{
    if b == 0 {
        lemma2_to64();
    } else {
        let b1 = (b - 1) as nat;
        lemma_window_split(bits, start, a, b1);
        lemma_pow2_unfold(b);
        let hi = window(bits, start, a);
        let p = pow2(b1);
        assert(2 * (hi * p) == hi * (2 * p)) by (nonlinear_arith);
        assert(window(bits, start, a + b) == 2 * window(bits, start, (a + b1) as nat) + bit_value(
            bits,
            start + a + b - 1,
        ));
    }
}

/// A window that starts at or past the end of the bits is zero.
pub proof fn lemma_window_past_end(bits: Seq<bool>, start: int, width: nat)
    requires
        start >= bits.len(),
    ensures
        window(bits, start, width) == 0,
    decreases width,
{
    if width > 0 {
        lemma_window_past_end(bits, start, (width - 1) as nat);
    }
}

/// Two strings of bits that agree on a window give the same number there.
pub proof fn lemma_window_agree(a: Seq<bool>, b: Seq<bool>, start: int, width: nat)
    requires
        forall|i: int| start <= i < start + width ==> bit_value(a, i) == bit_value(b, i),
    ensures
        window(a, start, width) == window(b, start, width),
    decreases width,
{
    if width > 0 {
        lemma_window_agree(a, b, start, (width - 1) as nat);
    }
}

/// The eight bits of a byte write that byte.
proof fn lemma_byte_from_bits(x: u8)
    ensures
        x == (if bit_at(x, 7) { 128int } else { 0 }) + (if bit_at(x, 6) { 64int } else { 0 }) + (if bit_at(x, 5) { 32int } else { 0 })
            + (if bit_at(x, 4) { 16int } else { 0 }) + (if bit_at(x, 3) { 8int } else { 0 }) + (if bit_at(x, 2) { 4int } else { 0 })
            + (if bit_at(x, 1) { 2int } else { 0 }) + (if bit_at(x, 0) { 1int } else { 0 }),
{
    assert(x == (if (x >> 7u8) & 1 == 1 { 128u8 } else { 0 }) + (if (x >> 6u8) & 1 == 1 { 64u8 } else { 0 }) + (if (x >> 5u8) & 1 == 1 { 32u8 } else { 0 })
        + (if (x >> 4u8) & 1 == 1 { 16u8 } else { 0 }) + (if (x >> 3u8) & 1 == 1 { 8u8 } else { 0 }) + (if (x >> 2u8) & 1 == 1 { 4u8 } else { 0 })
        + (if (x >> 1u8) & 1 == 1 { 2u8 } else { 0 }) + (if (x >> 0u8) & 1 == 1 { 1u8 } else { 0 })) by (bit_vector);
}

/// The window over byte `i` of the bits of `data` is that byte.
pub proof fn lemma_byte_window(data: Seq<u8>, i: int)
    requires
        0 <= i < data.len(),
    ensures
        window(bytes_bits(data), 8 * i, 8) == data[i],
{
    let bits = bytes_bits(data);
    let s = 8 * i;
    assert forall|k: int| 0 <= k < 8 implies #[trigger] bit_value(bits, s + k) == (if bit_at(
        data[i],
        7 - k,
    ) { 1nat } else { 0 }) by {
        assert((s + k) / 8 == i);
        assert((s + k) % 8 == k);
    }
    assert(bit_value(bits, s + 0) == (if bit_at(data[i], 7) { 1nat } else { 0 }));
    assert(bit_value(bits, s + 1) == (if bit_at(data[i], 6) { 1nat } else { 0 }));
    assert(bit_value(bits, s + 2) == (if bit_at(data[i], 5) { 1nat } else { 0 }));
    assert(bit_value(bits, s + 3) == (if bit_at(data[i], 4) { 1nat } else { 0 }));
    assert(bit_value(bits, s + 4) == (if bit_at(data[i], 3) { 1nat } else { 0 }));
    assert(bit_value(bits, s + 5) == (if bit_at(data[i], 2) { 1nat } else { 0 }));
    assert(bit_value(bits, s + 6) == (if bit_at(data[i], 1) { 1nat } else { 0 }));
    assert(bit_value(bits, s + 7) == (if bit_at(data[i], 0) { 1nat } else { 0 }));
    reveal_with_fuel(window, 9);
    lemma_byte_from_bits(data[i]);
}

/// Five bits, each zero or one, are read back from the number they write.
proof fn lemma_bits_of_group(b0: u8, b1: u8, b2: u8, b3: u8, b4: u8)
    requires
        b0 <= 1,
        b1 <= 1,
        b2 <= 1,
        b3 <= 1,
        b4 <= 1,
    ensures
        ({
            let v = (16 * b0 + 8 * b1 + 4 * b2 + 2 * b3 + b4) as u8;
            &&& bit_at(v, 4) == (b0 == 1)
            &&& bit_at(v, 3) == (b1 == 1)
            &&& bit_at(v, 2) == (b2 == 1)
            &&& bit_at(v, 1) == (b3 == 1)
            &&& bit_at(v, 0) == (b4 == 1)
        }),
{
    let v = (16 * b0 + 8 * b1 + 4 * b2 + 2 * b3 + b4) as u8;
    assert(v == 16 * b0 + 8 * b1 + 4 * b2 + 2 * b3 + b4);
    assert(((v >> 4u8) & 1 == 1) == (b0 == 1) && ((v >> 3u8) & 1 == 1) == (b1 == 1) && ((v >> 2u8)
        & 1 == 1) == (b2 == 1) && ((v >> 1u8) & 1 == 1) == (b3 == 1) && ((v >> 0u8) & 1 == 1) == (b4
        == 1)) by (bit_vector)
        requires
            b0 <= 1,
            b1 <= 1,
            b2 <= 1,
            b3 <= 1,
            b4 <= 1,
            v == 16 * b0 + 8 * b1 + 4 * b2 + 2 * b3 + b4,
    ;
}

/// Bit `k` of a group of five is bit `start + k` of the bits it was cut from.
pub proof fn lemma_group_bit(bits: Seq<bool>, start: int, k: int)
    requires
        0 <= k < 5,
    ensures
        window(bits, start, 5) < 32,
        bit_at(window(bits, start, 5) as u8, 4 - k) == (bit_value(bits, start + k) == 1),
{
    reveal_with_fuel(window, 6);
    let b0 = bit_value(bits, start + 0) as u8;
    let b1 = bit_value(bits, start + 1) as u8;
    let b2 = bit_value(bits, start + 2) as u8;
    let b3 = bit_value(bits, start + 3) as u8;
    let b4 = bit_value(bits, start + 4) as u8;
    assert(window(bits, start, 5) == 16 * b0 + 8 * b1 + 4 * b2 + 2 * b3 + b4);
    lemma_bits_of_group(b0, b1, b2, b3, b4);
}

/// Every group is below 32.
pub proof fn lemma_encode_symbols_range(data: Seq<u8>)
    ensures
        forall|j: int| 0 <= j < encode_symbols(data).len() ==> #[trigger] encode_symbols(data)[j] < 32,
{
    assert forall|j: int| 0 <= j < encode_symbols(data).len() implies #[trigger] encode_symbols(
        data,
    )[j] < 32 by {
        lemma_group_bit(bytes_bits(data), 5 * j, 0);
    }
}

/// The groups of `data` hold the bits of `data`, then zeros.
proof fn lemma_encoded_bits(data: Seq<u8>, t: int)
    ensures
        bit_value(symbols_bits(encode_symbols(data)), t) == bit_value(bytes_bits(data), t),
{
    let bits = bytes_bits(data);
    let symbols = encode_symbols(data);
    if 0 <= t < 5 * symbols.len() {
        let j = t / 5;
        let k = t % 5;
        lemma_group_bit(bits, 5 * j, k);
        assert(symbols[j] == window(bits, 5 * j, 5) as u8);
    }
}

/// Decoding the groups of `data` gives `data` back.
pub proof fn lemma_decode_encode_symbols(data: Seq<u8>)
    ensures
        decode_symbols(encode_symbols(data)) == data,
{
    let symbols = encode_symbols(data);
    let decoded = decode_symbols(symbols);
    assert(decoded.len() == data.len());
    assert forall|i: int| 0 <= i < data.len() implies decoded[i] == data[i] by {
        assert forall|t: int| 8 * i <= t < 8 * i + 8 implies bit_value(symbols_bits(symbols), t)
            == bit_value(bytes_bits(data), t) by {
            lemma_encoded_bits(data, t);
        }
        lemma_window_agree(symbols_bits(symbols), bytes_bits(data), 8 * i, 8);
        lemma_byte_window(data, i);
    }
    assert(decoded =~= data);
}

/// Each group below 32 has a character of the alphabet, which stands for it.
pub proof fn lemma_alphabet(v: u8)
    requires
        v < 32,
    ensures
        is_symbol_char(symbol_char(v)),
        char_symbol(symbol_char(v)) == v,
        symbol_char(v) == (if v < 26 { (v + 97) as char } else { (v + 24) as char }),
{
    reveal_strlit("abcdefghijklmnopqrstuvwxyz234567");
}

/// The text of `data` holds only characters of the alphabet and decodes to
/// `data`.
pub proof fn lemma_decode_encode(data: Seq<u8>)
    ensures
        is_base32_text(encode_text(data)),
        decode_text(encode_text(data)) == Some(data),
{
    let symbols = encode_symbols(data);
    let text = encode_text(data);
    lemma_encode_symbols_range(data);
    assert forall|i: int| 0 <= i < text.len() implies is_symbol_char(#[trigger] text[i]) by {
        lemma_alphabet(symbols[i]);
    }
    let back = text_symbols(text);
    assert forall|i: int| 0 <= i < symbols.len() implies back[i] == symbols[i] by {
        lemma_alphabet(symbols[i]);
    }
    assert(back =~= symbols);
    lemma_decode_encode_symbols(data);
}

/// Splits a buffer that holds a group above `low_bits` further bits.
proof fn lemma_take_high(buffer: u64, low_bits: u32, high: nat, low: nat, limit: u64)
    requires
        low_bits < 8,
        limit == 32 || limit == 256,
        high < limit,
        low < pow2(low_bits as nat),
        buffer == high * pow2(low_bits as nat) + low,
    ensures
        (buffer >> low_bits) & ((limit - 1) as u64) == high,
        1u64 << low_bits == pow2(low_bits as nat),
        buffer & (((1u64 << low_bits) - 1) as u64) == low,
{
    lemma2_to64();
    let p: u64 = 1u64 << low_bits;
    assert(p == pow2(low_bits as nat)) by {
        lemma_u64_shl_is_mul(1, low_bits as u64);
    }
    lemma_fundamental_div_mod_converse(buffer as int, p as int, high as int, low as int);
    lemma_u64_shr_is_div(buffer, low_bits as u64);
    lemma_u64_low_bits_mask_is_mod(buffer, low_bits as nat);
    let h: u64 = buffer >> low_bits;
    assert(h == high);
    if limit == 32 {
        assert(h & 31 == h) by (bit_vector)
            requires
                h < 32,
        ;
    } else {
        assert(h & 255 == h) by (bit_vector)
            requires
                h < 256,
        ;
    }
}

/// Appends the character of the group `v`.
fn push_symbol(text: &mut String, v: u8)
    requires
        v < 32,
    ensures
        final(text)@ == old(text)@.push(symbol_char(v)),
{
    let alphabet = "abcdefghijklmnopqrstuvwxyz234567";
    proof {
        reveal_strlit("abcdefghijklmnopqrstuvwxyz234567");
    }
    assert(alphabet.is_ascii());
    let symbol = alphabet.substring_ascii(v as usize, v as usize + 1);
    text.append(symbol);
    assert(text@ =~= old(text)@.push(symbol_char(v)));
}

/// Encodes `data`.
pub fn encode(data: &[u8]) -> (text: String)
    ensures
        text@ == encode_text(data@),
{
    let ghost all = bytes_bits(data@);
    let mut text = String::new();
    let mut buffer: u64 = 0;
    let mut bits: u32 = 0;
    let mut i: usize = 0;
    while i < data.len()
        invariant
            all == bytes_bits(data@),
            i <= data.len(),
            bits < 5,
            5 * text@.len() + bits == 8 * i,
            buffer == window(all, 8 * i - bits, bits as nat),
            forall|j: int|
                0 <= j < text@.len() ==> text@[j] == symbol_char(group(data@, j)),
        decreases data.len() - i,
    {
        proof {
            lemma2_to64();
            lemma_window_bound(all, 8 * i - bits, bits as nat);
            lemma_window_split(all, 8 * i - bits, bits as nat, 8);
            lemma_byte_window(data@, i as int);
        }
        let byte: u64 = data[i] as u64;
        assert((buffer << 8) | byte == buffer * 256 + byte) by (bit_vector)
            requires
                buffer < 32,
                byte < 256,
        ;
        buffer = (buffer << 8) | byte;
        bits = bits + 8;
        i = i + 1;
        while bits >= 5
            invariant
                all == bytes_bits(data@),
                i <= data.len(),
                bits <= 12,
                5 * text@.len() + bits == 8 * i,
                buffer == window(all, 8 * i - bits, bits as nat),
                forall|j: int|
                    0 <= j < text@.len() ==> text@[j] == symbol_char(group(data@, j)),
            decreases bits,
        {
            let ghost start = 8 * i - bits;
            bits = bits - 5;
            proof {
                lemma_window_split(all, start, 5, bits as nat);
                lemma_window_bound(all, start, 5);
                lemma_window_bound(all, start + 5, bits as nat);
                lemma2_to64();
                lemma_take_high(
                    buffer,
                    bits,
                    window(all, start, 5),
                    window(all, start + 5, bits as nat),
                    32,
                );
            }
            let v: u8 = ((buffer >> bits) & 0x1f) as u8;
            push_symbol(&mut text, v);
            buffer = buffer & ((1u64 << bits) - 1);
        }
    }
    if bits > 0 {
        let ghost start = 8 * i - bits;
        let up: u32 = 5 - bits;
        proof {
            lemma2_to64();
            lemma_window_bound(all, start, bits as nat);
            lemma_window_split(all, start, bits as nat, up as nat);
            lemma_window_past_end(all, start + bits, up as nat);
            lemma_window_bound(all, start, 5);
            lemma_u64_shl_is_mul(buffer, up as u64);
        }
        let moved: u64 = buffer << up;
        assert(moved & 0x1f == moved) by (bit_vector)
            requires
                moved < 32,
        ;
        let v: u8 = (moved & 0x1f) as u8;
        push_symbol(&mut text, v);
    }
    assert(text@ =~= encode_text(data@));
    text
}

/// The five low bits of a group below 32 write that group.
proof fn lemma_group_from_bits(x: u8)
    requires
        x < 32,
    ensures
        x == (if bit_at(x, 4) { 16int } else { 0 }) + (if bit_at(x, 3) { 8int } else { 0 }) + (if bit_at(x, 2) { 4int } else { 0 })
            + (if bit_at(x, 1) { 2int } else { 0 }) + (if bit_at(x, 0) { 1int } else { 0 }),
{
    assert(x == (if (x >> 4u8) & 1 == 1 { 16u8 } else { 0 }) + (if (x >> 3u8) & 1 == 1 { 8u8 } else { 0 }) + (if (x >> 2u8) & 1 == 1 { 4u8 } else { 0 })
        + (if (x >> 1u8) & 1 == 1 { 2u8 } else { 0 }) + (if (x >> 0u8) & 1 == 1 { 1u8 } else { 0 })) by (bit_vector)
        requires
            x < 32,
    ;
}

/// The window over group `j` of the bits of `symbols` is that group.
pub proof fn lemma_symbol_window(symbols: Seq<u8>, j: int)
    requires
        0 <= j < symbols.len(),
        symbols[j] < 32,
    ensures
        window(symbols_bits(symbols), 5 * j, 5) == symbols[j],
{
    let bits = symbols_bits(symbols);
    let s = 5 * j;
    assert forall|k: int| 0 <= k < 5 implies #[trigger] bit_value(bits, s + k) == (if bit_at(
        symbols[j],
        4 - k,
    ) { 1nat } else { 0 }) by {
        assert((s + k) / 5 == j);
        assert((s + k) % 5 == k);
    }
    assert(bit_value(bits, s + 0) == (if bit_at(symbols[j], 4) { 1nat } else { 0 }));
    assert(bit_value(bits, s + 1) == (if bit_at(symbols[j], 3) { 1nat } else { 0 }));
    assert(bit_value(bits, s + 2) == (if bit_at(symbols[j], 2) { 1nat } else { 0 }));
    assert(bit_value(bits, s + 3) == (if bit_at(symbols[j], 1) { 1nat } else { 0 }));
    assert(bit_value(bits, s + 4) == (if bit_at(symbols[j], 0) { 1nat } else { 0 }));
    reveal_with_fuel(window, 6);
    lemma_group_from_bits(symbols[j]);
}

/// The groups that the characters of `text` stand for.
pub open spec fn text_symbols(text: Seq<char>) -> Seq<u8> {
    text.map_values(|c: char| char_symbol(c))
}

/// Decodes `text`; `None` where a character is outside the alphabet.
pub fn decode(text: &str) -> (r: Option<Vec<u8>>)
    ensures
        r is Some <==> is_base32_text(text@),
        r matches Some(bytes) ==> Some(bytes@) == decode_text(text@),
{
    let ghost symbols = text_symbols(text@);
    let ghost all = symbols_bits(symbols);
    let mut out: Vec<u8> = Vec::new();
    let mut buffer: u64 = 0;
    let mut bits: u32 = 0;
    for c in it: text.chars()
        invariant
            it.seq() == text@,
            symbols == text_symbols(text@),
            all == symbols_bits(symbols),
            bits < 8,
            8 * (out@.len() as int) + bits == 5 * it.index(),
            buffer == window(all, 8 * (out@.len() as int), bits as nat),
            forall|i: int| 0 <= i < out@.len() ==> out@[i] == window(all, 8 * i, 8),
            forall|t: int| 0 <= t < it.index() ==> is_symbol_char(#[trigger] text@[t]),
    {
        let ghost t = it.index() as int;
        assert(c == text@[t]);
        let val: u64 = if 'a' <= c && c <= 'z' {
            (c as u8 - 'a' as u8) as u64
        } else if '2' <= c && c <= '7' {
            (c as u8 - '2' as u8 + 26) as u64
        } else {
            assert(!is_symbol_char(text@[t]));
            return None;
        };
        proof {
            let start: int = 8 * (out@.len() as int);
            assert(symbols[t] == val);
            lemma2_to64();
            lemma_window_bound(all, start, bits as nat);
            lemma_window_split(all, start, bits as nat, 5);
            lemma_symbol_window(symbols, t);
        }
        assert((buffer << 5) | val == buffer * 32 + val) by (bit_vector)
            requires
                buffer < 128,
                val < 32,
        ;
        buffer = (buffer << 5) | val;
        bits = bits + 5;
        if bits >= 8 {
            let ghost start: int = 8 * (out@.len() as int);
            bits = bits - 8;
            proof {
                lemma_window_split(all, start, 8, bits as nat);
                lemma_window_bound(all, start, 8);
                lemma_window_bound(all, start + 8, bits as nat);
                lemma2_to64();
                lemma_take_high(
                    buffer,
                    bits,
                    window(all, start, 8),
                    window(all, start + 8, bits as nat),
                    256,
                );
            }
            out.push(((buffer >> bits) & 0xff) as u8);
            buffer = buffer & ((1u64 << bits) - 1);
        }
    }
    assert(is_base32_text(text@));
    assert(out@ =~= decode_symbols(symbols));
    Some(out)
}

} // verus!
