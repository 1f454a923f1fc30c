use vstd::prelude::*;
use vstd::string::StringExecFns;

verus! {

/// The number that eight bytes spell in little-endian order: byte 0 is the
/// least significant.
pub open spec fn le64_value(s: Seq<u8>) -> nat
    recommends
        s.len() == 8,
{
    (s[0] as nat) + (s[1] as nat) * 0x100 + (s[2] as nat) * 0x1_0000 + (s[3] as nat) * 0x100_0000
        + (s[4] as nat) * 0x1_0000_0000 + (s[5] as nat) * 0x100_0000_0000 + (s[6] as nat)
        * 0x1_0000_0000_0000 + (s[7] as nat) * 0x100_0000_0000_0000
}

/// The eight little-endian bytes of `x`.
pub open spec fn le64_bytes(x: nat) -> Seq<u8> {
    seq![
        (x % 0x100) as u8,
        ((x / 0x100) % 0x100) as u8,
        ((x / 0x1_0000) % 0x100) as u8,
        ((x / 0x100_0000) % 0x100) as u8,
        ((x / 0x1_0000_0000) % 0x100) as u8,
        ((x / 0x100_0000_0000) % 0x100) as u8,
        ((x / 0x1_0000_0000_0000) % 0x100) as u8,
        ((x / 0x100_0000_0000_0000) % 0x100) as u8,
    ]
}

/// Storing a 64-bit number and loading it again gives the number back.
pub proof fn lemma_le64_load_store(x: nat)
    requires
        x <= u64::MAX,
    ensures
        le64_bytes(x).len() == 8,
        le64_value(le64_bytes(x)) == x,
{
    let y: u64 = x as u64;
    assert(y == (y % 0x100) + ((y / 0x100) % 0x100) * 0x100 + ((y / 0x1_0000) % 0x100) * 0x1_0000
        + ((y / 0x100_0000) % 0x100) * 0x100_0000 + ((y / 0x1_0000_0000) % 0x100) * 0x1_0000_0000
        + ((y / 0x100_0000_0000) % 0x100) * 0x100_0000_0000 + ((y / 0x1_0000_0000_0000) % 0x100)
        * 0x1_0000_0000_0000 + ((y / 0x100_0000_0000_0000) % 0x100) * 0x100_0000_0000_0000)
        by (bit_vector);
}

/// Loading eight bytes and storing the number again gives the bytes back.
pub proof fn lemma_le64_store_load(s: Seq<u8>)
    requires
        s.len() == 8,
    ensures
        le64_value(s) <= u64::MAX,
        le64_bytes(le64_value(s)) == s,
{
    let b0: u64 = s[0] as u64;
    let b1: u64 = s[1] as u64;
    let b2: u64 = s[2] as u64;
    let b3: u64 = s[3] as u64;
    let b4: u64 = s[4] as u64;
    let b5: u64 = s[5] as u64;
    let b6: u64 = s[6] as u64;
    let b7: u64 = s[7] as u64;
    let v: u64 = (b0 + b1 * 0x100 + b2 * 0x1_0000 + b3 * 0x100_0000 + b4 * 0x1_0000_0000 + b5
        * 0x100_0000_0000 + b6 * 0x1_0000_0000_0000 + b7 * 0x100_0000_0000_0000) as u64;
    assert(v as nat == le64_value(s));
    assert(v % 0x100 == b0 && (v / 0x100) % 0x100 == b1 && (v / 0x1_0000) % 0x100 == b2 && (v
        / 0x100_0000) % 0x100 == b3 && (v / 0x1_0000_0000) % 0x100 == b4 && (v / 0x100_0000_0000)
        % 0x100 == b5 && (v / 0x1_0000_0000_0000) % 0x100 == b6 && (v / 0x100_0000_0000_0000)
        % 0x100 == b7) by (bit_vector)
        requires
            v == b0 + b1 * 0x100 + b2 * 0x1_0000 + b3 * 0x100_0000 + b4 * 0x1_0000_0000 + b5
                * 0x100_0000_0000 + b6 * 0x1_0000_0000_0000 + b7 * 0x100_0000_0000_0000,
            b0 < 0x100,
            b1 < 0x100,
            b2 < 0x100,
            b3 < 0x100,
            b4 < 0x100,
            b5 < 0x100,
            b6 < 0x100,
            b7 < 0x100,
    ;
    assert(le64_bytes(le64_value(s)) =~= s);
}

/// Writes `x` as eight little-endian bytes.
pub fn store_u64_le(x: u64) -> (r: [u8; 8])
    ensures
        r@ == le64_bytes(x as nat),
{
    let b1: u8 = (x & 0xff) as u8;
    let b2: u8 = ((x >> 8) & 0xff) as u8;
    let b3: u8 = ((x >> 16) & 0xff) as u8;
    let b4: u8 = ((x >> 24) & 0xff) as u8;
    let b5: u8 = ((x >> 32) & 0xff) as u8;
    let b6: u8 = ((x >> 40) & 0xff) as u8;
    let b7: u8 = ((x >> 48) & 0xff) as u8;
    let b8: u8 = ((x >> 56) & 0xff) as u8;
    assert(x & 0xff == x % 0x100) by (bit_vector);
    assert((x >> 8) & 0xff == (x / 0x100) % 0x100) by (bit_vector);
    assert((x >> 16) & 0xff == (x / 0x1_0000) % 0x100) by (bit_vector);
    assert((x >> 24) & 0xff == (x / 0x100_0000) % 0x100) by (bit_vector);
    assert((x >> 32) & 0xff == (x / 0x1_0000_0000) % 0x100) by (bit_vector);
    assert((x >> 40) & 0xff == (x / 0x100_0000_0000) % 0x100) by (bit_vector);
    assert((x >> 48) & 0xff == (x / 0x1_0000_0000_0000) % 0x100) by (bit_vector);
    assert((x >> 56) & 0xff == (x / 0x100_0000_0000_0000) % 0x100) by (bit_vector);
    let r = [b1, b2, b3, b4, b5, b6, b7, b8];
    assert(r@ =~= le64_bytes(x as nat));
    r
}

/// Writes a machine word as eight little-endian bytes.
pub fn store_usize_le(x: usize) -> (r: [u8; 8])
    ensures
        r@ == le64_bytes(x as nat),
{
    store_u64_le(x as u64)
}

/// Reads the first eight bytes of `x` as a little-endian 64-bit number.
pub fn load_u64_le(x: &[u8]) -> (r: u64)
    requires
        x@.len() >= 8,
    ensures
        r as nat == le64_value(x@.subrange(0, 8)),
{
    let b0: u64 = x[0] as u64;
    let b1: u64 = x[1] as u64;
    let b2: u64 = x[2] as u64;
    let b3: u64 = x[3] as u64;
    let b4: u64 = x[4] as u64;
    let b5: u64 = x[5] as u64;
    let b6: u64 = x[6] as u64;
    let b7: u64 = x[7] as u64;
    let r: u64 = b0 | b1 << 8 | b2 << 16 | b3 << 24 | b4 << 32 | b5 << 40 | b6 << 48 | b7 << 56;
    assert(r == b0 + b1 * 0x100 + b2 * 0x1_0000 + b3 * 0x100_0000 + b4 * 0x1_0000_0000 + b5
        * 0x100_0000_0000 + b6 * 0x1_0000_0000_0000 + b7 * 0x100_0000_0000_0000) by (bit_vector)
        requires
            r == b0 | b1 << 8 | b2 << 16 | b3 << 24 | b4 << 32 | b5 << 40 | b6 << 48 | b7 << 56,
            b0 < 0x100,
            b1 < 0x100,
            b2 < 0x100,
            b3 < 0x100,
            b4 < 0x100,
            b5 < 0x100,
            b6 < 0x100,
            b7 < 0x100,
    ;
    r
}

/// Reads the first eight bytes of `x` as a little-endian number. A number
/// that does not fit the machine word keeps its low bits, as a cast would.
pub fn load_usize_le(x: &[u8]) -> (r: usize)
    requires
        x@.len() >= 8,
    ensures
        r as nat == le64_value(x@.subrange(0, 8)) % (usize::MAX as nat + 1),
        le64_value(x@.subrange(0, 8)) <= usize::MAX ==> r as nat == le64_value(x@.subrange(0, 8)),
{
    let v: u64 = load_u64_le(x);
    if v <= usize::MAX as u64 {
        assert((v as nat) % (usize::MAX as nat + 1) == v as nat) by (nonlinear_arith)
            requires
                v as nat <= usize::MAX as nat,
        ;
        v as usize
    } else {
        let m: u64 = usize::MAX as u64 + 1;
        (v % m) as usize
    }
}

/// `data` with the leading bytes XORed against `stream`, as far as `stream`
/// reaches; bytes beyond the end of `stream` are left as they are.
pub open spec fn xor_stream(data: Seq<u8>, stream: Seq<u8>) -> Seq<u8> {
    Seq::new(
        data.len(),
        |i: int|
            if i < stream.len() {
                data[i] ^ stream[i]
            } else {
                data[i]
            },
    )
}

/// Applying the same stream twice restores the data.
pub proof fn lemma_xor_stream_involution(data: Seq<u8>, stream: Seq<u8>)
    ensures
        xor_stream(xor_stream(data, stream), stream) == data,
{
    let once = xor_stream(data, stream);
    let twice = xor_stream(once, stream);
    assert forall|i: int| 0 <= i < data.len() implies twice[i] == data[i] by {
        if i < stream.len() {
            let a = data[i];
            let b = stream[i];
            assert((a ^ b) ^ b == a) by (bit_vector);
        }
    }
    assert(twice =~= data);
}

/// What is left of `stream` after its first `n` bytes; nothing where it
/// has no more than `n`.
pub open spec fn stream_rest(stream: Seq<u8>, n: nat) -> Seq<u8> {
    if n <= stream.len() {
        stream.subrange(n as int, stream.len() as int)
    } else {
        Seq::<u8>::empty()
    }
}

/// XORing a stream over two strings laid end to end is XORing it over the
/// first, and what is left of it over the second.
pub proof fn lemma_xor_stream_concat(a: Seq<u8>, b: Seq<u8>, stream: Seq<u8>)
    ensures
        xor_stream(a + b, stream) == xor_stream(a, stream) + xor_stream(
            b,
            stream_rest(stream, a.len()),
        ),
{
    let rest = stream_rest(stream, a.len());
    assert(xor_stream(a + b, stream) =~= xor_stream(a, stream) + xor_stream(b, rest));
}

/// Two streams that differ at a byte they both reach give different
/// results there.
pub proof fn lemma_xor_stream_differs(data: Seq<u8>, one: Seq<u8>, other: Seq<u8>, i: int)
    requires
        0 <= i < data.len(),
        i < one.len(),
        i < other.len(),
        one[i] != other[i],
    ensures
        xor_stream(data, one)[i] != xor_stream(data, other)[i],
{
    let d = data[i];
    let a = one[i];
    let b = other[i];
    assert(a != b ==> d ^ a != d ^ b) by (bit_vector);
}

/// Compares two byte strings without stopping at the first difference, so
/// that the running time does not tell where they differ.
pub fn fixed_time_eq(lhs: &[u8], rhs: &[u8]) -> (r: bool)
    ensures
        r == (lhs@ == rhs@),
{
    if lhs.len() != rhs.len() {
        return false;
    }
    let n = lhs.len();
    let mut acc: u8 = 0;
    let mut i: usize = 0;
    while i < n
        invariant
            i <= n,
            n == lhs@.len(),
            n == rhs@.len(),
            acc == 0 <==> (forall|j: int| 0 <= j < i ==> lhs@[j] == rhs@[j]),
        decreases n - i,
    {
        let a = lhs[i];
        let b = rhs[i];
        let prev = acc;
        acc = acc | (a ^ b);
        proof {
            assert((prev | (a ^ b)) == 0 <==> (prev == 0 && a == b)) by (bit_vector);
        }
        i += 1;
    }
    proof {
        if acc == 0 {
            assert(lhs@ =~= rhs@);
        }
    }
    acc == 0
}

/// Appends `src` to `out`.
pub fn extend_bytes(out: &mut Vec<u8>, src: &[u8])
    ensures
        final(out)@ == old(out)@ + src@,
{
    let n = src.len();
    let mut i: usize = 0;
    while i < n
        invariant
            i <= n,
            n == src@.len(),
            out@ == old(out)@ + src@.subrange(0, i as int),
        decreases n - i,
    {
        out.push(src[i]);
        proof {
            assert(src@.subrange(0, i + 1) =~= src@.subrange(0, i as int).push(src@[i as int]));
        }
        i += 1;
    }
    proof {
        assert(src@.subrange(0, n as int) =~= src@);
    }
}

/// Copies `N` bytes of `bytes`, starting at `start`, into an array.
pub fn read_array<const N: usize>(bytes: &[u8], start: usize) -> (r: [u8; N])
    requires
        start + N <= bytes@.len(),
    ensures
        r@ == bytes@.subrange(start as int, start + N),
{
    let mut r = [0u8; N];
    let mut i: usize = 0;
    while i < N
        invariant
            i <= N,
            start + N <= bytes.len(),
            forall|j: int| 0 <= j < i ==> r@[j] == bytes@[start + j],
        decreases N - i,
    {
        r[i] = bytes[start + i];
        i += 1;
    }
    proof {
        assert(r@ =~= bytes@.subrange(start as int, start + N));
    }
    r
}

/// XORs `stream` into the front of `dst` and tells how many bytes it
/// changed: the shorter of the two lengths.
pub fn xor_in_place(dst: &mut [u8], stream: &[u8]) -> (n: usize)
    ensures
        final(dst)@ == xor_stream(old(dst)@, stream@),
        n == if old(dst)@.len() <= stream@.len() {
            old(dst)@.len()
        } else {
            stream@.len()
        },
{
    let n = if dst.len() <= stream.len() {
        dst.len()
    } else {
        stream.len()
    };
    let mut i: usize = 0;
    while i < n
        invariant
            i <= n,
            n <= dst@.len(),
            n <= stream@.len(),
            dst@.len() == old(dst)@.len(),
            forall|j: int| 0 <= j < i ==> dst@[j] == old(dst)@[j] ^ stream@[j],
            forall|j: int| i <= j < dst@.len() ==> dst@[j] == old(dst)@[j],
        decreases n - i,
    {
        let b = dst[i] ^ stream[i];
        dst[i] = b;
        i += 1;
    }
    proof {
        assert(dst@ =~= xor_stream(old(dst)@, stream@));
    }
    n
}

/// The lower-case hexadecimal digit for a value below 16.
pub open spec fn hex_digit(n: int) -> char {
    if n == 0 {
        '0'
    } else if n == 1 {
        '1'
    } else if n == 2 {
        '2'
    } else if n == 3 {
        '3'
    } else if n == 4 {
        '4'
    } else if n == 5 {
        '5'
    } else if n == 6 {
        '6'
    } else if n == 7 {
        '7'
    } else if n == 8 {
        '8'
    } else if n == 9 {
        '9'
    } else if n == 10 {
        'a'
    } else if n == 11 {
        'b'
    } else if n == 12 {
        'c'
    } else if n == 13 {
        'd'
    } else if n == 14 {
        'e'
    } else {
        'f'
    }
}

/// A byte in lower-case hexadecimal without a leading zero: one digit
/// below 16, two digits from 16 on.
pub open spec fn hex_of_byte(b: u8) -> Seq<char> {
    if b < 16 {
        seq![hex_digit(b as int)]
    } else {
        seq![hex_digit(b as int / 16), hex_digit(b as int % 16)]
    }
}

/// The bytes in lower-case hexadecimal, one after the other, none padded.
pub open spec fn hex_text(bytes: Seq<u8>) -> Seq<char>
    decreases bytes.len(),
{
    if bytes.len() == 0 {
        Seq::<char>::empty()
    } else {
        hex_text(bytes.drop_last()) + hex_of_byte(bytes.last())
    }
}

/// The text of one hexadecimal digit.
fn hex_digit_str(n: u8) -> (r: &'static str)
    requires
        n < 16,
    ensures
        r@ == seq![hex_digit(n as int)],
{
    proof {
        reveal_strlit("0");
        reveal_strlit("1");
        reveal_strlit("2");
        reveal_strlit("3");
        reveal_strlit("4");
        reveal_strlit("5");
        reveal_strlit("6");
        reveal_strlit("7");
        reveal_strlit("8");
        reveal_strlit("9");
        reveal_strlit("a");
        reveal_strlit("b");
        reveal_strlit("c");
        reveal_strlit("d");
        reveal_strlit("e");
        reveal_strlit("f");
    }
    let r = match n {
        0 => "0",
        1 => "1",
        2 => "2",
        3 => "3",
        4 => "4",
        5 => "5",
        6 => "6",
        7 => "7",
        8 => "8",
        9 => "9",
        10 => "a",
        11 => "b",
        12 => "c",
        13 => "d",
        14 => "e",
        _ => "f",
    };
    proof {
        assert(r@ =~= seq![hex_digit(n as int)]);
    }
    r
}

/// Writes the bytes in lower-case hexadecimal, none padded to two digits.
pub fn lower_hex(bytes: &[u8]) -> (r: String)
    ensures
        r@ == hex_text(bytes@),
{
    let mut r = String::new();
    let n = bytes.len();
    let mut i: usize = 0;
    while i < n
        invariant
            i <= n,
            n == bytes@.len(),
            r@ == hex_text(bytes@.subrange(0, i as int)),
        decreases n - i,
    {
        let b = bytes[i];
        proof {
            let next = bytes@.subrange(0, i + 1);
            assert(next.drop_last() =~= bytes@.subrange(0, i as int));
            assert(next.last() == b);
        }
        if b >= 16 {
            r.append(hex_digit_str(b / 16));
        }
        r.append(hex_digit_str(b % 16));
        i += 1;
    }
    proof {
        assert(bytes@.subrange(0, n as int) =~= bytes@);
    }
    r
}

} // verus!
