//! Little-endian readers over a reply buffer.
//!
//! Each reader takes the buffer and a position and returns the value read
//! together with the position just past it, or `None` when the buffer ends
//! before the value is complete.

use vstd::prelude::*;

verus! {

/// The text that `String::from_utf8_lossy` makes of a byte sequence.
pub uninterp spec fn utf8_lossy(b: Seq<u8>) -> Seq<char>;

/// True when every byte is below 0x80.
pub open spec fn all_ascii(b: Seq<u8>) -> bool {
    forall|i: int| 0 <= i < b.len() ==> #[trigger] b[i] < 128
}

/// Bytes that are all ASCII decode to the characters of the same codes.
pub open spec fn ascii_decodes_to(b: Seq<u8>, t: Seq<char>) -> bool {
    all_ascii(b) ==> t.len() == b.len() && forall|i: int|
        0 <= i < b.len() ==> #[trigger] (t[i] as u32) == b[i] as u32
}

/// Relies on `String::from_utf8_lossy`: the text depends on the bytes alone,
/// and bytes that are all ASCII are valid UTF-8 and decode one character per byte.
#[verifier::external_body]
fn lossy_string(b: &[u8]) -> (r: String)
    ensures
        r@ == utf8_lossy(b@),
        ascii_decodes_to(b@, r@),
{
    String::from_utf8_lossy(b).into_owned()
}

/// Value of two bytes read as a little-endian unsigned 16-bit integer.
pub open spec fn le_u16(b0: u8, b1: u8) -> int {
    b0 as int + 256 * (b1 as int)
}

/// Value of four bytes read as a little-endian signed 32-bit integer.
pub open spec fn le_i32(b0: u8, b1: u8, b2: u8, b3: u8) -> int {
    let u = b0 as int + 256 * (b1 as int) + 65536 * (b2 as int) + 16777216 * (b3 as int);
    if u < 0x8000_0000 {
        u
    } else {
        u - 0x1_0000_0000
    }
}

/// Position of the first zero byte at or after `pos`, if there is one.
pub open spec fn zero_from(b: Seq<u8>, pos: int) -> Option<int>
    decreases b.len() - pos,
{
    if pos < 0 || pos >= b.len() {
        None
    } else if b[pos] == 0 {
        Some(pos)
    } else {
        zero_from(b, pos + 1)
    }
}

/// The zero-terminated byte string that starts at `pos`, without its
/// terminator, and the position just past the terminator.
pub open spec fn cstr_at(b: Seq<u8>, pos: int) -> Option<(Seq<u8>, int)> {
    match zero_from(b, pos) {
        Some(z) => Some((b.subrange(pos, z), z + 1)),
        None => None,
    }
}

/// Reads one byte at `pos`.
pub fn read_byte(buf: &[u8], pos: usize) -> (r: Option<(u8, usize)>)
    ensures
        pos < buf@.len() <==> r is Some,
        r matches Some((v, next)) ==> v == buf@[pos as int] && next == pos + 1,
{
    if pos < buf.len() {
        Some((buf[pos], pos + 1))
    } else {
        None
    }
}

/// Reads a little-endian unsigned 16-bit integer at `pos`.
pub fn read_short(buf: &[u8], pos: usize) -> (r: Option<(u16, usize)>)
    ensures
        pos + 2 <= buf@.len() <==> r is Some,
        r matches Some((v, next)) ==> v as int == le_u16(buf@[pos as int], buf@[pos + 1])
            && next == pos + 2,
{
    if pos < buf.len() && buf.len() - pos >= 2 {
        let lo = buf[pos] as u16;
        let hi = buf[pos + 1] as u16;
        Some((lo + hi * 256, pos + 2))
    } else {
        None
    }
}

/// Reads a little-endian signed 32-bit integer at `pos`.
pub fn read_long(buf: &[u8], pos: usize) -> (r: Option<(i32, usize)>)
    ensures
        pos + 4 <= buf@.len() <==> r is Some,
        r matches Some((v, next)) ==> v as int == le_i32(
            buf@[pos as int],
            buf@[pos + 1],
            buf@[pos + 2],
            buf@[pos + 3],
        ) && next == pos + 4,
{
    if pos < buf.len() && buf.len() - pos >= 4 {
        let u: u32 = buf[pos] as u32 + 256 * (buf[pos + 1] as u32) + 65536 * (buf[pos + 2] as u32)
            + 16777216 * (buf[pos + 3] as u32);
        let v: i32 = if u < 0x8000_0000 {
            u as i32
        } else {
            ((u - 0x8000_0000) as i32) - 0x7fff_ffff - 1
        };
        Some((v, pos + 4))
    } else {
        None
    }
}

/// Finds the first zero byte at or after `pos`.
fn find_zero(buf: &[u8], pos: usize) -> (r: Option<usize>)
    ensures
        match r {
            Some(z) => zero_from(buf@, pos as int) == Some(z as int),
            None => zero_from(buf@, pos as int) is None,
        },
{
    let mut i: usize = pos;
    while i < buf.len()
        invariant
            pos <= i,
            zero_from(buf@, pos as int) == zero_from(buf@, i as int),
        decreases buf.len() - i,
    {
        if buf[i] == 0 {
            return Some(i);
        }
        i = i + 1;
    }
    None
}

/// Copies `buf[from..to]` into a new vector.
fn copy_range(buf: &[u8], from: usize, to: usize) -> (r: Vec<u8>)
    requires
        from <= to <= buf@.len(),
    ensures
        r@ == buf@.subrange(from as int, to as int),
{
    let mut out: Vec<u8> = Vec::new();
    let mut i: usize = from;
    while i < to
        invariant
            from <= i <= to <= buf@.len(),
            out@ == buf@.subrange(from as int, i as int),
        decreases to - i,
    {
        out.push(buf[i]);
        i = i + 1;
        assert(out@ == buf@.subrange(from as int, i as int));
    }
    out
}

/// Reads the zero-terminated byte string at `pos`, returning its raw bytes
/// and the position just past the terminator.
pub fn read_cstr(buf: &[u8], pos: usize) -> (r: Option<(Vec<u8>, usize)>)
    ensures
        match r {
            Some((s, next)) => cstr_at(buf@, pos as int) == Some((s@, next as int)),
            None => cstr_at(buf@, pos as int) is None,
        },
{
    let len = buf.len();
    match find_zero(buf, pos) {
        Some(z) => {
            proof {
                lemma_zero_from_bounds(buf@, pos as int);
                assert(z < len);
            }
            let s = copy_range(buf, pos, z);
            Some((s, z + 1))
        },
        None => None,
    }
}

/// Reads the zero-terminated string at `pos`, decoding its bytes as UTF-8
/// with invalid sequences replaced.
pub fn read_string(buf: &[u8], pos: usize) -> (r: Option<(String, usize)>)
    ensures
        match cstr_at(buf@, pos as int) {
            Some((s, next)) => r matches Some((t, n)) && t@ == utf8_lossy(s) && ascii_decodes_to(
                s,
                t@,
            ) && n == next,
            None => r is None,
        },
{
    match read_cstr(buf, pos) {
        Some((s, next)) => Some((lossy_string(s.as_slice()), next)),
        None => None,
    }
}

/// The terminator found from `pos` lies at or after `pos`, inside the sequence,
/// and no zero byte stands before it.
pub proof fn lemma_zero_from_bounds(b: Seq<u8>, pos: int)
    ensures
        zero_from(b, pos) matches Some(z) ==> pos <= z < b.len() && b[z] == 0 && forall|k: int|
            pos <= k < z ==> b[k] != 0,
        zero_from(b, pos) is None && 0 <= pos ==> forall|k: int| pos <= k < b.len() ==> b[k] != 0,
    decreases b.len() - pos,
{
    if pos < 0 || pos >= b.len() {
    } else if b[pos] == 0 {
    } else {
        lemma_zero_from_bounds(b, pos + 1);
    }
}

/// A zero-free string followed by a terminator is read back whole.
pub proof fn lemma_cstr_at_concat(pre: Seq<u8>, s: Seq<u8>, post: Seq<u8>)
    requires
        forall|k: int| 0 <= k < s.len() ==> s[k] != 0,
    ensures
        cstr_at(pre + s + seq![0u8] + post, pre.len() as int) == Some(
            (s, (pre.len() + s.len() + 1) as int),
        ),
{
    let b = pre + s + seq![0u8] + post;
    let z = (pre.len() + s.len()) as int;
    lemma_zero_from_first(b, pre.len() as int, z);
    assert(b.subrange(pre.len() as int, z) == s);
}

proof fn lemma_zero_from_first(b: Seq<u8>, pos: int, z: int)
    requires
        0 <= pos <= z < b.len(),
        b[z] == 0,
        forall|k: int| pos <= k < z ==> b[k] != 0,
    ensures
        zero_from(b, pos) == Some(z),
    decreases z - pos,
{
    if pos < z {
        lemma_zero_from_first(b, pos + 1, z);
    }
}

} // verus!
