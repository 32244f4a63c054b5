//! ICC profiles at the byte level: finding the tags that say which space a
//! photograph is in, and laying out a matrix/TRC profile describing one.
//!
//! The numbers inside the tags are `s15Fixed16` fixed point. This module
//! reads and writes them as the raw 32-bit integers they are stored as; what
//! they mean as colours is worked out in floating point elsewhere.

use vstd::prelude::*;
use vstd::string::StringSliceAdditionalSpecFns;

verus! {

/// Where the tag count sits: straight after the 128-byte header.
pub const TAG_COUNT_AT: usize = 128;

/// Bytes per tag-table entry: signature, offset, size.
pub const TAG_ENTRY: usize = 12;

/// The most tags a profile may declare before it is taken to be corrupt.
pub const MAX_TAGS: usize = 1024;

/// The big-endian unsigned number in `s[at..at + 4]`.
pub open spec fn be32(s: Seq<u8>, at: int) -> int {
    s[at] * 0x100_0000 + s[at + 1] * 0x1_0000 + s[at + 2] * 0x100 + s[at + 3]
}

/// The same four bytes read as a two's-complement signed number.
pub open spec fn be32_signed(s: Seq<u8>, at: int) -> int {
    if be32(s, at) >= 0x8000_0000 {
        be32(s, at) - 0x1_0000_0000
    } else {
        be32(s, at)
    }
}

/// The big-endian number at `at`, if four bytes are there.
pub open spec fn be32_at(s: Seq<u8>, at: int) -> Option<u32> {
    if 0 <= at && at + 4 <= s.len() {
        Some(be32(s, at) as u32)
    } else {
        None
    }
}

pub fn be_u32(bytes: &[u8], at: usize) -> (r: Option<u32>)
    requires
        at + 4 <= usize::MAX,
    ensures
        r == be32_at(bytes@, at as int),
        r matches Some(v) ==> v as int == be32(bytes@, at as int),
{
    if at + 4 > bytes.len() {
        return None;
    }
    let v: u32 = (bytes[at] as u32) * 0x100_0000 + (bytes[at + 1] as u32) * 0x1_0000
        + (bytes[at + 2] as u32) * 0x100 + (bytes[at + 3] as u32);
    Some(v)
}

/// A signed big-endian 32-bit number: the raw form of an `s15Fixed16Number`,
/// which is this divided by 65536.
pub fn be_i32(bytes: &[u8], at: usize) -> (r: Option<i32>)
    requires
        at + 4 <= usize::MAX,
    ensures
        r is Some <==> at + 4 <= bytes@.len(),
        r matches Some(v) ==> v as int == be32_signed(bytes@, at as int),
{
    match be_u32(bytes, at) {
        None => None,
        Some(u) => {
            if u >= 0x8000_0000 {
                let v: i32 = (u - 0x8000_0000) as i32 - 0x7fff_ffff - 1;
                Some(v)
            } else {
                Some(u as i32)
            }
        },
    }
}

/// The byte position of entry `i` of the tag table.
pub open spec fn entry_at(i: int) -> int {
    TAG_COUNT_AT + 4 + i * TAG_ENTRY
}

/// Looking for `sig` from table entry `i` onwards, in table order: an entry
/// that runs past the end of the profile ends the search with nothing, and
/// so does a matching entry whose offset or size is cut off.
pub open spec fn find_from(p: Seq<u8>, count: int, sig: Seq<u8>, i: int) -> Option<(int, int)>
    decreases count - i,
{
    if i >= count {
        None
    } else if entry_at(i) + 4 > p.len() {
        None
    } else if p.subrange(entry_at(i), entry_at(i) + 4) != sig {
        find_from(p, count, sig, i + 1)
    } else if entry_at(i) + 12 > p.len() {
        None
    } else {
        Some((be32(p, entry_at(i) + 4), be32(p, entry_at(i) + 8)))
    }
}

/// Where one tag's data starts and how long it is.
pub fn find_tag(profile: &[u8], count: usize, signature: &[u8; 4]) -> (r: Option<(usize, usize)>)
    requires
        count <= MAX_TAGS,
    ensures
        match r {
            Some((at, size)) => find_from(profile@, count as int, signature@, 0) == Some(
                (at as int, size as int),
            ),
            None => find_from(profile@, count as int, signature@, 0) is None,
        },
{
    let mut i: usize = 0;
    while i < count
        invariant
            i <= count <= MAX_TAGS,
            find_from(profile@, count as int, signature@, 0) == find_from(profile@, count as int, signature@, i as int),
        decreases count - i,
    {
        let entry = TAG_COUNT_AT + 4 + i * TAG_ENTRY;
        if entry + 4 > profile.len() {
            return None;
        }
        let here = &profile[entry..entry + 4];
        let same = here[0] == signature[0] && here[1] == signature[1] && here[2] == signature[2]
            && here[3] == signature[3];
        assert(same <==> here@ =~= signature@);
        if same {
            let at = match be_u32(profile, entry + 4) {
                Some(v) => v,
                None => return None,
            };
            let size = match be_u32(profile, entry + 8) {
                Some(v) => v,
                None => return None,
            };
            return Some((at as usize, size as usize));
        }
        i = i + 1;
    }
    None
}

/// The three raw numbers of an `XYZType` tag: the tag's data must be at
/// least 20 bytes, lie inside the profile, and begin with `XYZ `.
pub open spec fn xyz_from(p: Seq<u8>, count: int, sig: Seq<u8>) -> Option<Seq<int>> {
    match find_from(p, count, sig, 0) {
        None => None,
        Some((at, size)) => {
            if size < 20 || at + 20 > p.len() || p.subrange(at, at + 4) != seq![0x58u8, 0x59u8, 0x5au8, 0x20u8] {
                None
            } else {
                Some(seq![be32_signed(p, at + 8), be32_signed(p, at + 12), be32_signed(p, at + 16)])
            }
        },
    }
}

/// The nine raw numbers of an `s15Fixed16ArrayType` tag, row by row: at
/// least 44 bytes, inside the profile, beginning with `sf32`.
pub open spec fn sf32_from(p: Seq<u8>, count: int, sig: Seq<u8>) -> Option<Seq<int>> {
    match find_from(p, count, sig, 0) {
        None => None,
        Some((at, size)) => {
            if size < 44 || at + 44 > p.len() || p.subrange(at, at + 4) != seq![0x73u8, 0x66u8, 0x33u8, 0x32u8] {
                None
            } else {
                Some(Seq::new(9, |k: int| be32_signed(p, at + 8 + 4 * k)))
            }
        },
    }
}

fn read_i32s(data: &[u8], start: usize, n: usize) -> (out: Vec<i32>)
    requires
        start + 4 * n <= data@.len(),
        data@.len() <= 44,
    ensures
        out@.len() == n,
        forall|k: int| 0 <= k < n ==> out@[k] as int == be32_signed(data@, start + 4 * k),
{
    let mut out: Vec<i32> = Vec::new();
    let mut k: usize = 0;
    while k < n
        invariant
            k <= n,
            start + 4 * n <= data@.len() <= 44,
            out@.len() == k,
            forall|j: int| 0 <= j < k ==> out@[j] as int == be32_signed(data@, start + 4 * j),
        decreases n - k,
    {
        let v = be_i32(data, start + 4 * k).unwrap();
        out.push(v);
        k = k + 1;
    }
    out
}

/// Find one `XYZType` tag and read its three numbers.
pub fn xyz_tag(profile: &[u8], count: usize, signature: &[u8; 4]) -> (r: Option<[i32; 3]>)
    requires
        count <= MAX_TAGS,
    ensures
        match r {
            Some(v) => xyz_from(profile@, count as int, signature@) == Some(
                seq![v[0] as int, v[1] as int, v[2] as int],
            ),
            None => xyz_from(profile@, count as int, signature@) is None,
        },
{
    let (at, size) = match find_tag(profile, count, signature) {
        Some(t) => t,
        None => return None,
    };
    if size < 20 {
        return None;
    }
    let len = profile.len();
    if at > usize::MAX - 20 || at + 20 > len {
        return None;
    }
    let data = &profile[at..at + 20];
    if !(data[0] == 0x58 && data[1] == 0x59 && data[2] == 0x5a && data[3] == 0x20) {
        assert(profile@.subrange(at as int, at + 4) != seq![0x58u8, 0x59u8, 0x5au8, 0x20u8]) by {
            assert(profile@.subrange(at as int, at + 4)[0] == data@[0]);
            assert(profile@.subrange(at as int, at + 4)[1] == data@[1]);
            assert(profile@.subrange(at as int, at + 4)[2] == data@[2]);
            assert(profile@.subrange(at as int, at + 4)[3] == data@[3]);
        }
        return None;
    }
    assert(profile@.subrange(at as int, at + 4) =~= seq![0x58u8, 0x59u8, 0x5au8, 0x20u8]);
    let v = read_i32s(data, 8, 3);
    let out = [v[0], v[1], v[2]];
    assert(seq![out[0] as int, out[1] as int, out[2] as int] =~= seq![
        be32_signed(profile@, at + 8),
        be32_signed(profile@, at + 12),
        be32_signed(profile@, at + 16),
    ]);
    Some(out)
}

/// Read a 3x3 from an `s15Fixed16ArrayType` tag, row by row.
pub fn sf32_tag(profile: &[u8], count: usize, signature: &[u8; 4]) -> (r: Option<[[i32; 3]; 3]>)
    requires
        count <= MAX_TAGS,
    ensures
        match r {
            Some(m) => sf32_from(profile@, count as int, signature@) == Some(
                Seq::new(9, |k: int| m[k / 3][k % 3] as int),
            ),
            None => sf32_from(profile@, count as int, signature@) is None,
        },
{
    let (at, size) = match find_tag(profile, count, signature) {
        Some(t) => t,
        None => return None,
    };
    if size < 44 {
        return None;
    }
    let len = profile.len();
    if at > usize::MAX - 44 || at + 44 > len {
        return None;
    }
    let data = &profile[at..at + 44];
    if !(data[0] == 0x73 && data[1] == 0x66 && data[2] == 0x33 && data[3] == 0x32) {
        assert(profile@.subrange(at as int, at + 4) != seq![0x73u8, 0x66u8, 0x33u8, 0x32u8]) by {
            assert(profile@.subrange(at as int, at + 4)[0] == data@[0]);
            assert(profile@.subrange(at as int, at + 4)[1] == data@[1]);
            assert(profile@.subrange(at as int, at + 4)[2] == data@[2]);
            assert(profile@.subrange(at as int, at + 4)[3] == data@[3]);
        }
        return None;
    }
    assert(profile@.subrange(at as int, at + 4) =~= seq![0x73u8, 0x66u8, 0x33u8, 0x32u8]);
    let v = read_i32s(data, 8, 9);
    let m = [[v[0], v[1], v[2]], [v[3], v[4], v[5]], [v[6], v[7], v[8]]];
    assert(Seq::new(9, |k: int| m[k / 3][k % 3] as int) =~= Seq::new(
        9,
        |k: int| be32_signed(profile@, at + 8 + 4 * k),
    ));
    Some(m)
}

/// The raw contents of the tags that say which space a profile describes.
#[derive(Clone, Copy, Debug, PartialEq, Eq)]
pub struct ProfileTags {
    /// The red, green and blue colorants, `rXYZ`, `gXYZ` and `bXYZ`.
    pub red: [i32; 3],
    pub green: [i32; 3],
    pub blue: [i32; 3],
    /// `chad`: the adaptation the profile says it applied, row by row.
    pub chad: Option<[[i32; 3]; 3]>,
    /// `wtpt`: the media white point.
    pub white: Option<[i32; 3]>,
}

pub open spec fn sig(a: u8, b: u8, c: u8, d: u8) -> Seq<u8> {
    seq![a, b, c, d]
}

/// The profile cut to the length it declares, when that length holds at
/// least the header and the tag count and no more than arrived.
pub open spec fn declared_part(p: Seq<u8>) -> Option<Seq<u8>> {
    if p.len() < 4 {
        None
    } else if be32(p, 0) < TAG_COUNT_AT + 4 || be32(p, 0) > p.len() {
        None
    } else {
        Some(p.subrange(0, be32(p, 0)))
    }
}

pub open spec fn xyz_view(v: [i32; 3]) -> Seq<int> {
    seq![v[0] as int, v[1] as int, v[2] as int]
}

pub open spec fn sf32_view(m: [[i32; 3]; 3]) -> Seq<int> {
    Seq::new(9, |k: int| m[k / 3][k % 3] as int)
}

/// What [`read_profile_tags`] finds in a profile: `None` for a profile whose
/// declared length is wrong, which declares more than [`MAX_TAGS`] tags, or
/// which lacks a readable colorant tag.
pub open spec fn tags_found(p: Seq<u8>) -> Option<(Seq<int>, Seq<int>, Seq<int>, Option<Seq<int>>, Option<Seq<int>>)> {
    match declared_part(p) {
        None => None,
        Some(t) => {
            let count = be32(t, TAG_COUNT_AT as int);
            if count > MAX_TAGS {
                None
            } else {
                match (
                    xyz_from(t, count, sig(0x72, 0x58, 0x59, 0x5a)),
                    xyz_from(t, count, sig(0x67, 0x58, 0x59, 0x5a)),
                    xyz_from(t, count, sig(0x62, 0x58, 0x59, 0x5a)),
                ) {
                    (Some(r), Some(g), Some(b)) => Some(
                        (
                            r,
                            g,
                            b,
                            sf32_from(t, count, sig(0x63, 0x68, 0x61, 0x64)),
                            xyz_from(t, count, sig(0x77, 0x74, 0x70, 0x74)),
                        ),
                    ),
                    _ => None,
                }
            }
        },
    }
}

/// Pull the colorant, adaptation and white-point tags out of a profile.
///
/// A profile declares its own length, and only that much is read: trusting
/// the slice instead would let a truncated file read whatever follows it.
pub fn read_profile_tags(profile: &[u8]) -> (r: Option<ProfileTags>)
    ensures
        match r {
            None => tags_found(profile@) is None,
            Some(t) => tags_found(profile@) == Some(
                (
                    xyz_view(t.red),
                    xyz_view(t.green),
                    xyz_view(t.blue),
                    match t.chad {
                        Some(m) => Some(sf32_view(m)),
                        None => None,
                    },
                    match t.white {
                        Some(w) => Some(xyz_view(w)),
                        None => None,
                    },
                ),
            ),
        },
{
    let declared = match be_u32(profile, 0) {
        Some(v) => v as usize,
        None => return None,
    };
    if declared < TAG_COUNT_AT + 4 || declared > profile.len() {
        return None;
    }
    let profile = &profile[0..declared];
    let count = match be_u32(profile, TAG_COUNT_AT) {
        Some(v) => v as usize,
        None => return None,
    };
    if count > MAX_TAGS {
        return None;
    }
    let red = match xyz_tag(profile, count, &[0x72, 0x58, 0x59, 0x5a]) {
        Some(v) => v,
        None => return None,
    };
    let green = match xyz_tag(profile, count, &[0x67, 0x58, 0x59, 0x5a]) {
        Some(v) => v,
        None => return None,
    };
    let blue = match xyz_tag(profile, count, &[0x62, 0x58, 0x59, 0x5a]) {
        Some(v) => v,
        None => return None,
    };
    let chad = sf32_tag(profile, count, &[0x63, 0x68, 0x61, 0x64]);
    let white = xyz_tag(profile, count, &[0x77, 0x74, 0x70, 0x74]);
    Some(ProfileTags { red, green, blue, chad, white })
}

// Writing.

/// The four big-endian bytes of `v`, taken modulo 2^32 (so a negative number
/// is written in two's complement).
pub open spec fn be32_bytes(v: int) -> Seq<u8> {
    let u = if v < 0 { v + 0x1_0000_0000 } else { v };
    seq![
        ((u / 0x100_0000) % 0x100) as u8,
        ((u / 0x1_0000) % 0x100) as u8,
        ((u / 0x100) % 0x100) as u8,
        (u % 0x100) as u8,
    ]
}

/// The two big-endian bytes of `v`.
pub open spec fn be16_bytes(v: int) -> Seq<u8> {
    seq![((v / 0x100) % 0x100) as u8, (v % 0x100) as u8]
}

/// `n` zero bytes.
pub open spec fn zeros(n: nat) -> Seq<u8> {
    Seq::new(n, |k: int| 0u8)
}

/// Reading back four bytes written big-endian gives the number written.
pub proof fn lemma_be32_round_trip(v: int)
    requires
        0 <= v < 0x1_0000_0000,
    ensures
        be32(be32_bytes(v), 0) == v,
{
    let b = be32_bytes(v);
    assert(b[0] == (v / 0x100_0000) % 0x100);
    assert(b[1] == (v / 0x1_0000) % 0x100);
    assert(b[2] == (v / 0x100) % 0x100);
    assert(b[3] == v % 0x100);
    assert(v == ((v / 0x100_0000) % 0x100) * 0x100_0000 + ((v / 0x1_0000) % 0x100) * 0x1_0000 + ((v
        / 0x100) % 0x100) * 0x100 + v % 0x100) by (nonlinear_arith)
        requires
            0 <= v < 0x1_0000_0000,
    ;
}

/// Reading back a signed number written in two's complement gives it back.
pub proof fn lemma_be32_signed_round_trip(v: int)
    requires
        -0x8000_0000 <= v < 0x8000_0000,
    ensures
        be32_signed(be32_bytes(v), 0) == v,
{
    let u = if v < 0 { v + 0x1_0000_0000 } else { v };
    lemma_be32_round_trip(u);
    assert(be32_bytes(u) == be32_bytes(v));
}

fn push_be32(out: &mut Vec<u8>, v: u32)
    ensures
        final(out)@ == old(out)@ + be32_bytes(v as int),
{
    out.push((v / 0x100_0000) as u8);
    out.push(((v / 0x1_0000) % 0x100) as u8);
    out.push(((v / 0x100) % 0x100) as u8);
    out.push((v % 0x100) as u8);
    assert(final(out)@ =~= old(out)@ + be32_bytes(v as int));
}

fn push_be_i32(out: &mut Vec<u8>, v: i32)
    ensures
        final(out)@ == old(out)@ + be32_bytes(v as int),
{
    let u: u32 = if v < 0 { ((v as i64) + 0x1_0000_0000) as u32 } else { v as u32 };
    push_be32(out, u);
}

fn push_be16(out: &mut Vec<u8>, v: u16)
    ensures
        final(out)@ == old(out)@ + be16_bytes(v as int),
{
    out.push((v / 0x100) as u8);
    out.push((v % 0x100) as u8);
    assert(final(out)@ =~= old(out)@ + be16_bytes(v as int));
}

fn push_zeros(out: &mut Vec<u8>, n: usize)
    ensures
        final(out)@ == old(out)@ + zeros(n as nat),
{
    let mut k: usize = 0;
    while k < n
        invariant
            k <= n,
            out@ == old(out)@ + zeros(k as nat),
        decreases n - k,
    {
        out.push(0);
        k = k + 1;
        assert(out@ =~= old(out)@ + zeros(k as nat));
    }
}

fn push_all(out: &mut Vec<u8>, bytes: &[u8])
    ensures
        final(out)@ == old(out)@ + bytes@,
{
    let mut k: usize = 0;
    while k < bytes.len()
        invariant
            k <= bytes@.len(),
            out@ == old(out)@ + bytes@.subrange(0, k as int),
        decreases bytes@.len() - k,
    {
        out.push(bytes[k]);
        k = k + 1;
        assert(out@ =~= old(out)@ + bytes@.subrange(0, k as int));
    }
    assert(bytes@.subrange(0, bytes@.len() as int) =~= bytes@);
}

/// `XYZType`: the signature, four reserved bytes, three numbers.
pub fn xyz_type(raw: [i32; 3]) -> (out: Vec<u8>)
    ensures
        out@ == sig(0x58, 0x59, 0x5a, 0x20) + zeros(4) + be32_bytes(raw[0] as int) + be32_bytes(raw[1] as int)
            + be32_bytes(raw[2] as int),
{
    let mut out: Vec<u8> = Vec::new();
    push_all(&mut out, &[0x58, 0x59, 0x5a, 0x20]);
    push_zeros(&mut out, 4);
    push_be_i32(&mut out, raw[0]);
    push_be_i32(&mut out, raw[1]);
    push_be_i32(&mut out, raw[2]);
    out
}

/// The three numbers of one row.
pub open spec fn row_bytes(r: [i32; 3]) -> Seq<u8> {
    be32_bytes(r[0] as int) + be32_bytes(r[1] as int) + be32_bytes(r[2] as int)
}

/// The nine numbers of a 3x3, row by row.
pub open spec fn matrix_bytes(m: [[i32; 3]; 3]) -> Seq<u8> {
    row_bytes(m[0]) + row_bytes(m[1]) + row_bytes(m[2])
}

fn push_row(out: &mut Vec<u8>, r: [i32; 3])
    ensures
        final(out)@ == old(out)@ + row_bytes(r),
{
    push_be_i32(out, r[0]);
    push_be_i32(out, r[1]);
    push_be_i32(out, r[2]);
    assert(final(out)@ =~= old(out)@ + row_bytes(r));
}

/// `s15Fixed16ArrayType` holding a 3x3: the signature, four reserved bytes,
/// nine numbers row by row.
pub fn sf32_type(m: [[i32; 3]; 3]) -> (out: Vec<u8>)
    ensures
        out@ == sig(0x73, 0x66, 0x33, 0x32) + zeros(4) + matrix_bytes(m),
{
    let mut out: Vec<u8> = Vec::new();
    push_all(&mut out, &[0x73, 0x66, 0x33, 0x32]);
    push_zeros(&mut out, 4);
    let ghost head = out@;
    push_row(&mut out, m[0]);
    push_row(&mut out, m[1]);
    push_row(&mut out, m[2]);
    assert(out@ =~= head + matrix_bytes(m));
    out
}

/// `textType`: the signature, four reserved bytes, the text and a zero.
pub fn text_type(text: &str) -> (out: Vec<u8>)
    ensures
        out@ == sig(0x74, 0x65, 0x78, 0x74) + zeros(4) + text.spec_bytes() + seq![0u8],
{
    let mut out: Vec<u8> = Vec::new();
    push_all(&mut out, &[0x74, 0x65, 0x78, 0x74]);
    push_zeros(&mut out, 4);
    push_all(&mut out, text.as_bytes());
    out.push(0);
    out
}

/// `textDescriptionType`, the version 2 way of naming a profile: the ASCII
/// name with its length counting the terminating zero, then the required
/// empty Unicode and ScriptCode halves.
pub fn text_description(name: &str) -> (out: Vec<u8>)
    requires
        name.spec_bytes().len() < u32::MAX,
    ensures
        out@ == sig(0x64, 0x65, 0x73, 0x63) + zeros(4) + be32_bytes(name.spec_bytes().len() + 1int)
            + name.spec_bytes() + seq![0u8] + zeros(8) + zeros(3) + zeros(67),
{
    let ascii = name.as_bytes();
    let mut out: Vec<u8> = Vec::new();
    push_all(&mut out, &[0x64, 0x65, 0x73, 0x63]);
    push_zeros(&mut out, 4);
    push_be32(&mut out, ascii.len() as u32 + 1);
    push_all(&mut out, ascii);
    out.push(0);
    push_zeros(&mut out, 8);
    push_zeros(&mut out, 3);
    push_zeros(&mut out, 67);
    out
}

/// The sampled tone curve as big-endian 16-bit values.
pub open spec fn samples_bytes(points: Seq<u16>) -> Seq<u8>
    decreases points.len(),
{
    if points.len() == 0 {
        Seq::empty()
    } else {
        samples_bytes(points.drop_last()) + be16_bytes(points.last() as int)
    }
}

/// `curveType`: the signature, four reserved bytes, the number of points and
/// the points. No points at all is the identity.
pub fn trc(points: &[u16]) -> (out: Vec<u8>)
    requires
        points@.len() <= u32::MAX,
    ensures
        out@ == sig(0x63, 0x75, 0x72, 0x76) + zeros(4) + be32_bytes(points@.len() as int) + samples_bytes(
            points@,
        ),
{
    let mut out: Vec<u8> = Vec::new();
    push_all(&mut out, &[0x63, 0x75, 0x72, 0x76]);
    push_zeros(&mut out, 4);
    push_be32(&mut out, points.len() as u32);
    let ghost head = out@;
    let mut k: usize = 0;
    while k < points.len()
        invariant
            k <= points@.len(),
            out@ == head + samples_bytes(points@.subrange(0, k as int)),
        decreases points@.len() - k,
    {
        push_be16(&mut out, points[k]);
        k = k + 1;
        assert(points@.subrange(0, k as int).drop_last() =~= points@.subrange(0, k - 1));
    }
    assert(points@.subrange(0, points@.len() as int) =~= points@);
    out
}

/// Replace `bytes.len()` bytes of `out` at `at`.
fn overwrite(out: &mut Vec<u8>, at: usize, bytes: &[u8])
    requires
        at + bytes@.len() <= old(out)@.len(),
    ensures
        final(out)@ == old(out)@.subrange(0, at as int) + bytes@ + old(out)@.subrange(
            at + bytes@.len(),
            old(out)@.len() as int,
        ),
{
    let len = out.len();
    let mut k: usize = 0;
    while k < bytes.len()
        invariant
            k <= bytes@.len(),
            len == out@.len(),
            at + bytes@.len() <= out@.len(),
            out@.len() == old(out)@.len(),
            out@ == old(out)@.subrange(0, at as int) + bytes@.subrange(0, k as int) + old(out)@.subrange(
                at + k,
                old(out)@.len() as int,
            ),
        decreases bytes@.len() - k,
    {
        out.set(at + k, bytes[k]);
        k = k + 1;
        assert(out@ =~= old(out)@.subrange(0, at as int) + bytes@.subrange(0, k as int) + old(out)@.subrange(
            at + k,
            old(out)@.len() as int,
        ));
    }
    assert(bytes@.subrange(0, bytes@.len() as int) =~= bytes@);
}

pub(crate) fn be32_array(v: u32) -> (r: [u8; 4])
    ensures
        r@ == be32_bytes(v as int),
{
    let r = [(v / 0x100_0000) as u8, ((v / 0x1_0000) % 0x100) as u8, ((v / 0x100) % 0x100) as u8, (v % 0x100) as u8];
    assert(r@ =~= be32_bytes(v as int));
    r
}

/// The bytes of the profile header, given the profile's size and what the
/// bytes it leaves alone held: version 2.1, a monitor profile, RGB data with
/// an XYZ connection space, a fixed creation date of 2026-01-01, the `acsp`
/// signature, and the connection space's illuminant.
#[verifier::opaque]
pub open spec fn header_of(before: Seq<u8>, size: u32, pcs: [i32; 3]) -> Seq<u8> {
    be32_bytes(size as int) + before.subrange(4, 8) + be32_bytes(0x0210_0000) + sig(0x6d, 0x6e, 0x74, 0x72)
        + sig(0x52, 0x47, 0x42, 0x20) + sig(0x58, 0x59, 0x5a, 0x20) + be16_bytes(2026) + be16_bytes(1)
        + be16_bytes(1) + be16_bytes(0) + be16_bytes(0) + be16_bytes(0) + sig(0x61, 0x63, 0x73, 0x70)
        + before.subrange(40, 68) + be32_bytes(pcs[0] as int) + be32_bytes(pcs[1] as int) + be32_bytes(
        pcs[2] as int,
    ) + before.subrange(80, before.len() as int)
}

/// Fill in the header of a profile whose body is already in place. `pcs` is
/// the connection-space illuminant as raw `s15Fixed16` numbers.
pub fn write_header(out: &mut Vec<u8>, pcs: [i32; 3])
    requires
        old(out)@.len() >= 80,
    ensures
        final(out)@ == header_of(old(out)@, old(out)@.len() as u32, pcs),
{
    let size = out.len() as u32;
    let ghost before = out@;
    let mut head: Vec<u8> = Vec::new();
    push_be32(&mut head, size);
    overwrite(out, 0, head.as_slice());
    let mut mid: Vec<u8> = Vec::new();
    push_be32(&mut mid, 0x0210_0000);
    push_all(&mut mid, &[0x6d, 0x6e, 0x74, 0x72]);
    push_all(&mut mid, &[0x52, 0x47, 0x42, 0x20]);
    push_all(&mut mid, &[0x58, 0x59, 0x5a, 0x20]);
    push_be16(&mut mid, 2026);
    push_be16(&mut mid, 1);
    push_be16(&mut mid, 1);
    push_be16(&mut mid, 0);
    push_be16(&mut mid, 0);
    push_be16(&mut mid, 0);
    push_all(&mut mid, &[0x61, 0x63, 0x73, 0x70]);
    overwrite(out, 8, mid.as_slice());
    let mut tail: Vec<u8> = Vec::new();
    push_be_i32(&mut tail, pcs[0]);
    push_be_i32(&mut tail, pcs[1]);
    push_be_i32(&mut tail, pcs[2]);
    overwrite(out, 68, tail.as_slice());
    reveal(header_of);
    assert(out@ =~= header_of(before, size, pcs));
}

/// Zero bytes needed after position `pos` to reach a four-byte boundary.
pub open spec fn pad_to4(pos: int) -> nat {
    ((4 - pos % 4) % 4) as nat
}

/// Where the tag table of an `n`-tag profile ends and tag data begins.
pub open spec fn table_end(n: int) -> int {
    TAG_COUNT_AT + 4 + n * TAG_ENTRY
}

/// The data of the first `i` tags as laid out after the table: each on a
/// four-byte boundary of the whole profile, zeros between.
pub open spec fn tag_data(tags: Seq<([u8; 4], Vec<u8>)>, i: int) -> Seq<u8>
    decreases i,
{
    if i <= 0 {
        Seq::empty()
    } else {
        let prev = tag_data(tags, i - 1);
        prev + zeros(pad_to4(table_end(tags.len() as int) + prev.len())) + tags[i - 1].1@
    }
}

/// Where tag `j`'s data starts in the profile.
pub open spec fn tag_offset(tags: Seq<([u8; 4], Vec<u8>)>, j: int) -> int {
    let pos = table_end(tags.len() as int) + tag_data(tags, j).len();
    pos + pad_to4(pos)
}

/// A tag-table entry: the signature, where the data starts, how long it is.
#[verifier::opaque]
pub open spec fn entry_bytes(signature: Seq<u8>, offset: int, len: int) -> Seq<u8> {
    signature + be32_bytes(offset) + be32_bytes(len)
}

/// The first `i` entries of the tag table.
pub open spec fn tag_table(tags: Seq<([u8; 4], Vec<u8>)>, i: int) -> Seq<u8>
    decreases i,
{
    if i <= 0 {
        Seq::empty()
    } else {
        tag_table(tags, i - 1) + entry_bytes(
            tags[i - 1].0@,
            tag_offset(tags, i - 1),
            tags[i - 1].1@.len() as int,
        )
    }
}

/// The profile before its header is filled in: 128 zero bytes, the tag count,
/// the table, and the tags' data.
pub open spec fn profile_body(tags: Seq<([u8; 4], Vec<u8>)>) -> Seq<u8> {
    zeros(TAG_COUNT_AT as nat) + be32_bytes(tags.len() as int) + tag_table(tags, tags.len() as int)
        + tag_data(tags, tags.len() as int)
}

proof fn lemma_tag_data_grows(tags: Seq<([u8; 4], Vec<u8>)>, j: int, i: int)
    requires
        0 <= j <= i,
    ensures
        tag_data(tags, j).len() <= tag_data(tags, i).len(),
        j < i ==> tag_offset(tags, j) + tags[j].1@.len() == table_end(tags.len() as int) + tag_data(
            tags,
            j + 1,
        ).len(),
    decreases i - j,
{
    if j < i {
        lemma_tag_data_grows(tags, j + 1, i);
    }
}

/// Lay out a matrix/TRC profile: a 128-byte header, the tag count, the tag
/// table, then each tag's data on a four-byte boundary in the order given.
/// `pcs` is the connection-space illuminant as raw `s15Fixed16` numbers.
///
/// Deterministic: the same tags give the same bytes every time, because the
/// creation date is fixed rather than read off a clock.
pub fn lay_out_profile(tags: &Vec<([u8; 4], Vec<u8>)>, pcs: [i32; 3]) -> (out: Vec<u8>)
    requires
        table_end(tags@.len() as int) + tag_data(tags@, tags@.len() as int).len() <= u32::MAX,
    ensures
        out@ == header_of(profile_body(tags@), profile_body(tags@).len() as u32, pcs),
{
    let n = tags.len();
    let table = TAG_COUNT_AT + 4 + n * TAG_ENTRY;
    let mut data: Vec<u8> = Vec::new();
    let mut offsets: Vec<u32> = Vec::new();
    let mut i: usize = 0;
    while i < n
        invariant
            n == tags@.len(),
            table == table_end(n as int),
            i <= n,
            table + tag_data(tags@, n as int).len() <= u32::MAX,
            data@ == tag_data(tags@, i as int),
            offsets@.len() == i,
            forall|j: int| 0 <= j < i ==> offsets@[j] as int == tag_offset(tags@, j),
        decreases n - i,
    {
        proof {
            lemma_tag_data_grows(tags@, i as int, n as int);
            lemma_tag_data_grows(tags@, (i + 1) as int, n as int);
        }
        let ghost before = data@;
        let pad = (4 - (table + data.len()) % 4) % 4;
        push_zeros(&mut data, pad);
        offsets.push((table + data.len()) as u32);
        push_all(&mut data, tags[i].1.as_slice());
        i = i + 1;
        assert(data@ =~= tag_data(tags@, i as int));
    }
    let mut out: Vec<u8> = Vec::new();
    push_zeros(&mut out, TAG_COUNT_AT);
    push_be32(&mut out, n as u32);
    let ghost head = out@;
    let mut i: usize = 0;
    while i < n
        invariant
            n == tags@.len(),
            i <= n,
            offsets@.len() == n,
            forall|j: int| 0 <= j < n ==> offsets@[j] as int == tag_offset(tags@, j),
            table + tag_data(tags@, n as int).len() <= u32::MAX,
            out@ == head + tag_table(tags@, i as int),
        decreases n - i,
    {
        proof {
            lemma_tag_data_grows(tags@, (i + 1) as int, n as int);
        }
        push_all(&mut out, &tags[i].0);
        push_be32(&mut out, offsets[i]);
        push_be32(&mut out, tags[i].1.len() as u32);
        i = i + 1;
        proof {
            reveal(entry_bytes);
        }
        assert(out@ =~= head + tag_table(tags@, i as int));
    }
    push_all(&mut out, data.as_slice());
    assert(out@ =~= profile_body(tags@));
    write_header(&mut out, pcs);
    out
}

proof fn lemma_header_keeps_the_body(b: Seq<u8>, size: u32, pcs: [i32; 3])
    requires
        b.len() >= 80,
    ensures
        header_of(b, size, pcs).len() == b.len(),
        header_of(b, size, pcs).subrange(0, 4) == be32_bytes(size as int),
        forall|k: int| 80 <= k < b.len() ==> #[trigger] header_of(b, size, pcs)[k] == b[k],
{
    reveal(header_of);
    let h = header_of(b, size, pcs);
    let front = h.subrange(0, 80);
    assert(h =~= front + b.subrange(80, b.len() as int));
    assert(h.subrange(0, 4) =~= be32_bytes(size as int));
}

proof fn lemma_entry_len(signature: Seq<u8>, offset: int, len: int)
    requires
        signature.len() == 4,
    ensures
        entry_bytes(signature, offset, len).len() == 12,
        entry_bytes(signature, offset, len).subrange(0, 4) == signature,
        entry_bytes(signature, offset, len).subrange(4, 8) == be32_bytes(offset),
        entry_bytes(signature, offset, len).subrange(8, 12) == be32_bytes(len),
{
    reveal(entry_bytes);
    assert(entry_bytes(signature, offset, len).subrange(0, 4) =~= signature);
    assert(entry_bytes(signature, offset, len).subrange(4, 8) =~= be32_bytes(offset));
    assert(entry_bytes(signature, offset, len).subrange(8, 12) =~= be32_bytes(len));
}

proof fn lemma_table_entries(tags: Seq<([u8; 4], Vec<u8>)>, m: int, i: int)
    requires
        0 <= m,
    ensures
        tag_table(tags, m).len() == 12 * m,
        0 <= i < m ==> tag_table(tags, m).subrange(12 * i, 12 * i + 12) == entry_bytes(
            tags[i].0@,
            tag_offset(tags, i),
            tags[i].1@.len() as int,
        ),
    decreases m,
{
    if m > 0 {
        lemma_table_entries(tags, m - 1, i);
        lemma_entry_len(tags[m - 1].0@, tag_offset(tags, m - 1), tags[m - 1].1@.len() as int);
        let prev = tag_table(tags, m - 1);
        let t = tag_table(tags, m);
        let e = entry_bytes(tags[m - 1].0@, tag_offset(tags, m - 1), tags[m - 1].1@.len() as int);
        assert(t == prev + e);
        assert(t.len() == 12 * m);
        if 0 <= i < m - 1 {
            assert(12 * i + 12 <= prev.len());
            assert(t.subrange(12 * i, 12 * i + 12) =~= prev.subrange(12 * i, 12 * i + 12));
        }
        if i == m - 1 {
            assert(t.subrange(12 * i, 12 * i + 12) =~= entry_bytes(
                tags[i].0@,
                tag_offset(tags, i),
                tags[i].1@.len() as int,
            ));
        }
    }
}

proof fn lemma_data_placed(tags: Seq<([u8; 4], Vec<u8>)>, m: int, j: int)
    requires
        0 <= j < m,
    ensures
        tag_data(tags, m).len() >= tag_offset(tags, j) - table_end(tags.len() as int) + tags[j].1@.len(),
        tag_data(tags, m).subrange(
            tag_offset(tags, j) - table_end(tags.len() as int),
            tag_offset(tags, j) - table_end(tags.len() as int) + tags[j].1@.len(),
        ) == tags[j].1@,
    decreases m,
{
    let base = table_end(tags.len() as int);
    let lo = tag_offset(tags, j) - base;
    let hi = lo + tags[j].1@.len();
    if m - 1 > j {
        lemma_data_placed(tags, m - 1, j);
        let prev = tag_data(tags, m - 1);
        assert(tag_data(tags, m).subrange(lo, hi) =~= prev.subrange(lo, hi));
    } else {
        let prev = tag_data(tags, j);
        assert(tag_data(tags, m).subrange(lo, hi) =~= tags[j].1@);
    }
}

/// The signatures of the tags are all different.
pub open spec fn distinct_signatures(tags: Seq<([u8; 4], Vec<u8>)>) -> bool {
    forall|a: int, b: int| 0 <= a < tags.len() && 0 <= b < tags.len() && a != b ==> #[trigger] tags[a].0@ != #[trigger] tags[b].0@
}

/// The profile [`lay_out_profile`] writes.
pub open spec fn written_profile(tags: Seq<([u8; 4], Vec<u8>)>, pcs: [i32; 3]) -> Seq<u8> {
    header_of(profile_body(tags), profile_body(tags).len() as u32, pcs)
}

proof fn lemma_written_entry(tags: Seq<([u8; 4], Vec<u8>)>, pcs: [i32; 3], i: int)
    requires
        table_end(tags.len() as int) + tag_data(tags, tags.len() as int).len() <= u32::MAX,
        0 <= i < tags.len(),
    ensures
        entry_at(i) + 12 <= written_profile(tags, pcs).len(),
        written_profile(tags, pcs).subrange(entry_at(i), entry_at(i) + 4) == tags[i].0@,
        be32(written_profile(tags, pcs), entry_at(i) + 4) == tag_offset(tags, i),
        be32(written_profile(tags, pcs), entry_at(i) + 8) == tags[i].1@.len(),
{
    let n = tags.len() as int;
    let body = profile_body(tags);
    let p = written_profile(tags, pcs);
    lemma_table_entries(tags, n, i);
    lemma_tag_data_grows(tags, i, n);
    lemma_tag_data_grows(tags, i + 1, n);
    lemma_header_keeps_the_body(body, body.len() as u32, pcs);
    let e = entry_bytes(tags[i].0@, tag_offset(tags, i), tags[i].1@.len() as int);
    lemma_entry_len(tags[i].0@, tag_offset(tags, i), tags[i].1@.len() as int);
    assert(body.subrange(entry_at(i), entry_at(i) + 12) =~= e);
    assert(p.subrange(entry_at(i), entry_at(i) + 12) =~= e);
    assert(p.subrange(entry_at(i), entry_at(i) + 4) =~= e.subrange(0, 4));
    assert(p.subrange(entry_at(i) + 4, entry_at(i) + 8) =~= e.subrange(4, 8));
    assert(p.subrange(entry_at(i) + 8, entry_at(i) + 12) =~= e.subrange(8, 12));
    lemma_be32_round_trip(tag_offset(tags, i));
    lemma_be32_round_trip(tags[i].1@.len() as int);
    assert(be32(p, entry_at(i) + 4) == be32(p.subrange(entry_at(i) + 4, entry_at(i) + 8), 0));
    assert(be32(p, entry_at(i) + 8) == be32(p.subrange(entry_at(i) + 8, entry_at(i) + 12), 0));
}

proof fn lemma_find_written(tags: Seq<([u8; 4], Vec<u8>)>, pcs: [i32; 3], j: int, i: int)
    requires
        table_end(tags.len() as int) + tag_data(tags, tags.len() as int).len() <= u32::MAX,
        distinct_signatures(tags),
        0 <= i <= j < tags.len(),
    ensures
        find_from(written_profile(tags, pcs), tags.len() as int, tags[j].0@, i) == Some(
            (tag_offset(tags, j), tags[j].1@.len() as int),
        ),
    decreases j - i,
{
    lemma_written_entry(tags, pcs, i);
    if i < j {
        lemma_find_written(tags, pcs, j, i + 1);
        assert(tags[i].0@ != tags[j].0@);
    }
}

proof fn lemma_written_frame(tags: Seq<([u8; 4], Vec<u8>)>, pcs: [i32; 3])
    requires
        table_end(tags.len() as int) + tag_data(tags, tags.len() as int).len() <= u32::MAX,
    ensures
        declared_part(written_profile(tags, pcs)) == Some(written_profile(tags, pcs)),
        be32(written_profile(tags, pcs), TAG_COUNT_AT as int) == tags.len(),
{
    let n = tags.len() as int;
    let body = profile_body(tags);
    let p = written_profile(tags, pcs);
    lemma_table_entries(tags, n, 0);
    lemma_header_keeps_the_body(body, body.len() as u32, pcs);
    lemma_be32_round_trip(body.len() as int);
    assert(be32(p, 0) == be32(p.subrange(0, 4), 0));
    assert(p.subrange(0, p.len() as int) =~= p);
    assert(body.subrange(128, 132) =~= be32_bytes(n));
    assert(p.subrange(128, 132) =~= be32_bytes(n));
    lemma_be32_round_trip(n);
    assert(be32(p, 128) == be32(p.subrange(128, 132), 0));
}

proof fn lemma_written_data(tags: Seq<([u8; 4], Vec<u8>)>, pcs: [i32; 3], j: int)
    requires
        table_end(tags.len() as int) + tag_data(tags, tags.len() as int).len() <= u32::MAX,
        0 <= j < tags.len(),
    ensures
        tag_offset(tags, j) + tags[j].1@.len() <= written_profile(tags, pcs).len(),
        written_profile(tags, pcs).subrange(tag_offset(tags, j), tag_offset(tags, j) + tags[j].1@.len())
            == tags[j].1@,
{
    let n = tags.len() as int;
    let body = profile_body(tags);
    let p = written_profile(tags, pcs);
    lemma_table_entries(tags, n, 0);
    lemma_header_keeps_the_body(body, body.len() as u32, pcs);
    lemma_data_placed(tags, n, j);
    lemma_tag_data_grows(tags, j, n);
    let lo = tag_offset(tags, j);
    let hi = lo + tags[j].1@.len();
    let base = table_end(n);
    assert(p.subrange(lo, hi) =~= body.subrange(lo, hi));
    assert(body.subrange(lo, hi) =~= tag_data(tags, n).subrange(lo - base, hi - base));
}

proof fn lemma_xyz_at(p: Seq<u8>, lo: int, raw: [i32; 3])
    requires
        0 <= lo,
        lo + 20 <= p.len(),
        p.subrange(lo, lo + 20) == sig(0x58, 0x59, 0x5a, 0x20) + zeros(4) + be32_bytes(raw[0] as int) + be32_bytes(
            raw[1] as int,
        ) + be32_bytes(raw[2] as int),
    ensures
        p.subrange(lo, lo + 4) == sig(0x58, 0x59, 0x5a, 0x20),
        be32_signed(p, lo + 8) == raw[0],
        be32_signed(p, lo + 12) == raw[1],
        be32_signed(p, lo + 16) == raw[2],
{
    let d = p.subrange(lo, lo + 20);
    assert(p.subrange(lo, lo + 4) =~= d.subrange(0, 4));
    assert(d.subrange(0, 4) =~= sig(0x58, 0x59, 0x5a, 0x20));
    lemma_be32_signed_round_trip(raw[0] as int);
    lemma_be32_signed_round_trip(raw[1] as int);
    lemma_be32_signed_round_trip(raw[2] as int);
    assert(d.subrange(8, 12) =~= be32_bytes(raw[0] as int));
    assert(d.subrange(12, 16) =~= be32_bytes(raw[1] as int));
    assert(d.subrange(16, 20) =~= be32_bytes(raw[2] as int));
    assert(be32_signed(p, lo + 8) == be32_signed(d.subrange(8, 12), 0));
    assert(be32_signed(p, lo + 12) == be32_signed(d.subrange(12, 16), 0));
    assert(be32_signed(p, lo + 16) == be32_signed(d.subrange(16, 20), 0));
}

/// Where the tag table of `p` says tag `i`'s data starts.
pub open spec fn entry_offset(p: Seq<u8>, i: int) -> int {
    be32(p, entry_at(i) + 4)
}

/// How long the tag table of `p` says tag `i`'s data is.
pub open spec fn entry_size(p: Seq<u8>, i: int) -> int {
    be32(p, entry_at(i) + 8)
}

/// A profile whose header gives its own length and whose every tag-table
/// entry points at data on a four-byte boundary that ends within it.
pub open spec fn table_well_formed(p: Seq<u8>) -> bool {
    &&& p.len() >= TAG_COUNT_AT + 4
    &&& be32(p, 0) == p.len()
    &&& entry_at(be32(p, TAG_COUNT_AT as int)) <= p.len()
    &&& forall|i: int|
        0 <= i < be32(p, TAG_COUNT_AT as int) ==> #[trigger] entry_offset(p, i) % 4 == 0
            && entry_offset(p, i) + entry_size(p, i) <= p.len()
}

proof fn lemma_padded_is_aligned(pos: int)
    requires
        pos >= 0,
    ensures
        (pos + pad_to4(pos)) % 4 == 0,
{
    let r = pos % 4;
    assert(0 <= r < 4);
    assert(pos == 4 * (pos / 4) + r);
    if r == 0 {
        assert(pad_to4(pos) == 0);
    } else {
        assert(pad_to4(pos) == 4 - r);
        assert(pos + pad_to4(pos) == 4 * (pos / 4 + 1));
    }
}

/// Every profile the writer lays out has a well-formed tag table: the length
/// in its header is its length, its tag count is the number of tags, and
/// every tag's data starts on a four-byte boundary and ends within the
/// profile.
pub proof fn lemma_tag_table_is_well_formed(tags: Seq<([u8; 4], Vec<u8>)>, pcs: [i32; 3])
    requires
        table_end(tags.len() as int) + tag_data(tags, tags.len() as int).len() <= u32::MAX,
    ensures
        table_well_formed(written_profile(tags, pcs)),
        be32(written_profile(tags, pcs), TAG_COUNT_AT as int) == tags.len(),
{
    let p = written_profile(tags, pcs);
    let n = tags.len() as int;
    lemma_written_frame(tags, pcs);
    assert(p.subrange(0, be32(p, 0)).len() == p.len());
    lemma_table_entries(tags, n, 0);
    lemma_header_keeps_the_body(profile_body(tags), profile_body(tags).len() as u32, pcs);
    assert forall|i: int| 0 <= i < be32(p, TAG_COUNT_AT as int) implies #[trigger] entry_offset(p, i) % 4 == 0
        && entry_offset(p, i) + entry_size(p, i) <= p.len() by {
        lemma_written_entry(tags, pcs, i);
        lemma_written_data(tags, pcs, i);
        lemma_padded_is_aligned(table_end(n) + tag_data(tags, i).len());
    }
}

/// The writer and the reader agree: in a profile laid out from tags with
/// different signatures, the length it declares is its own, its tag count is
/// the number of tags, every tag is found where its data was put, and an
/// `XYZType` tag reads back as the three numbers written into it.
pub proof fn lemma_written_tags_read_back(tags: Seq<([u8; 4], Vec<u8>)>, pcs: [i32; 3], j: int, raw: [i32; 3])
    requires
        table_end(tags.len() as int) + tag_data(tags, tags.len() as int).len() <= u32::MAX,
        tags.len() <= MAX_TAGS,
        distinct_signatures(tags),
        0 <= j < tags.len(),
    ensures
        declared_part(written_profile(tags, pcs)) == Some(written_profile(tags, pcs)),
        be32(written_profile(tags, pcs), TAG_COUNT_AT as int) == tags.len(),
        find_from(written_profile(tags, pcs), tags.len() as int, tags[j].0@, 0) == Some(
            (tag_offset(tags, j), tags[j].1@.len() as int),
        ),
        written_profile(tags, pcs).subrange(tag_offset(tags, j), tag_offset(tags, j) + tags[j].1@.len())
            == tags[j].1@,
        tags[j].1@ == sig(0x58, 0x59, 0x5a, 0x20) + zeros(4) + be32_bytes(raw[0] as int) + be32_bytes(
            raw[1] as int,
        ) + be32_bytes(raw[2] as int) ==> xyz_from(written_profile(tags, pcs), tags.len() as int, tags[j].0@)
            == Some(xyz_view(raw)),
{
    lemma_written_frame(tags, pcs);
    lemma_find_written(tags, pcs, j, 0);
    lemma_written_data(tags, pcs, j);
    let p = written_profile(tags, pcs);
    let lo = tag_offset(tags, j);
    if tags[j].1@ == sig(0x58, 0x59, 0x5a, 0x20) + zeros(4) + be32_bytes(raw[0] as int) + be32_bytes(raw[1] as int)
        + be32_bytes(raw[2] as int) {
        lemma_xyz_at(p, lo, raw);
        assert(seq![be32_signed(p, lo + 8), be32_signed(p, lo + 12), be32_signed(p, lo + 16)] =~= xyz_view(raw));
    }
}

// A whole profile for one colour space.

/// The bytes of an `XYZType` tag holding `raw`.
#[verifier::opaque]
pub open spec fn xyz_bytes(raw: [i32; 3]) -> Seq<u8> {
    sig(0x58, 0x59, 0x5a, 0x20) + zeros(4) + be32_bytes(raw[0] as int) + be32_bytes(raw[1] as int) + be32_bytes(
        raw[2] as int,
    )
}

/// The bytes of an `s15Fixed16ArrayType` tag holding the 3x3 `m`.
#[verifier::opaque]
pub open spec fn sf32_bytes(m: [[i32; 3]; 3]) -> Seq<u8> {
    sig(0x73, 0x66, 0x33, 0x32) + zeros(4) + matrix_bytes(m)
}

/// The bytes of a `textType` tag holding `text`.
#[verifier::opaque]
pub open spec fn text_bytes(text: Seq<u8>) -> Seq<u8> {
    sig(0x74, 0x65, 0x78, 0x74) + zeros(4) + text + seq![0u8]
}

/// The bytes of a `textDescriptionType` tag naming a profile `name`.
#[verifier::opaque]
pub open spec fn desc_bytes(name: Seq<u8>) -> Seq<u8> {
    sig(0x64, 0x65, 0x73, 0x63) + zeros(4) + be32_bytes(name.len() + 1int) + name + seq![0u8] + zeros(8)
        + zeros(3) + zeros(67)
}

/// The bytes of a `curveType` tag sampled at `points`.
#[verifier::opaque]
pub open spec fn curve_bytes(points: Seq<u16>) -> Seq<u8> {
    sig(0x63, 0x75, 0x72, 0x76) + zeros(4) + be32_bytes(points.len() as int) + samples_bytes(points)
}

/// `Public Domain`, the copyright notice every profile written here carries.
pub open spec fn copyright() -> Seq<u8> {
    seq![0x50u8, 0x75, 0x62, 0x6c, 0x69, 0x63, 0x20, 0x44, 0x6f, 0x6d, 0x61, 0x69, 0x6e]
}

/// The tags of a matrix/TRC profile for a space named `name`, in the order
/// they are written: its description, the D50 white point of the connection
/// space, the adaptation into D50, the red, green and blue colorants, the
/// same tone curve for each channel, and the copyright notice.
pub open spec fn profile_tags_ok(
    tags: Seq<([u8; 4], Vec<u8>)>,
    name: Seq<u8>,
    d50: [i32; 3],
    chad: [[i32; 3]; 3],
    red: [i32; 3],
    green: [i32; 3],
    blue: [i32; 3],
    curve: Seq<u16>,
) -> bool {
    &&& tags.len() == 10
    &&& tags[0].0@ == sig(0x64, 0x65, 0x73, 0x63) && tags[0].1@ == desc_bytes(name)
    &&& tags[1].0@ == sig(0x77, 0x74, 0x70, 0x74) && tags[1].1@ == xyz_bytes(d50)
    &&& tags[2].0@ == sig(0x63, 0x68, 0x61, 0x64) && tags[2].1@ == sf32_bytes(chad)
    &&& tags[3].0@ == sig(0x72, 0x58, 0x59, 0x5a) && tags[3].1@ == xyz_bytes(red)
    &&& tags[4].0@ == sig(0x67, 0x58, 0x59, 0x5a) && tags[4].1@ == xyz_bytes(green)
    &&& tags[5].0@ == sig(0x62, 0x58, 0x59, 0x5a) && tags[5].1@ == xyz_bytes(blue)
    &&& tags[6].0@ == sig(0x72, 0x54, 0x52, 0x43) && tags[6].1@ == curve_bytes(curve)
    &&& tags[7].0@ == sig(0x67, 0x54, 0x52, 0x43) && tags[7].1@ == curve_bytes(curve)
    &&& tags[8].0@ == sig(0x62, 0x54, 0x52, 0x43) && tags[8].1@ == curve_bytes(curve)
    &&& tags[9].0@ == sig(0x63, 0x70, 0x72, 0x74) && tags[9].1@ == text_bytes(copyright())
}

proof fn lemma_copyright_bytes()
    ensures
        "Public Domain".spec_bytes() == copyright(),
{
    reveal_strlit("Public Domain");
    broadcast use vstd::string::is_ascii_spec_bytes;

    assert(vstd::string::is_ascii("Public Domain"));
    assert("Public Domain".spec_bytes() =~= copyright());
}

/// The tags of a profile for the space named `name`. The numbers are raw
/// `s15Fixed16`: `d50` the connection space's white, `chad` the adaptation
/// from the space's own white into it, `red`, `green` and `blue` the adapted
/// colorants; `curve` samples the space's transfer function.
pub fn profile_tags(
    name: &str,
    d50: [i32; 3],
    chad: [[i32; 3]; 3],
    red: [i32; 3],
    green: [i32; 3],
    blue: [i32; 3],
    curve: &[u16],
) -> (tags: Vec<([u8; 4], Vec<u8>)>)
    requires
        name.spec_bytes().len() < u32::MAX,
        curve@.len() <= u32::MAX,
    ensures
        profile_tags_ok(tags@, name.spec_bytes(), d50, chad, red, green, blue, curve@),
{
    let shape = trc(curve);
    let first = shape.clone();
    assert(first@ =~= shape@);
    let second = shape.clone();
    assert(second@ =~= shape@);
    let notice = text_type("Public Domain");
    proof {
        lemma_copyright_bytes();
    }
    let tags = vec![
        ([0x64, 0x65, 0x73, 0x63], text_description(name)),
        ([0x77, 0x74, 0x70, 0x74], xyz_type(d50)),
        ([0x63, 0x68, 0x61, 0x64], sf32_type(chad)),
        ([0x72, 0x58, 0x59, 0x5a], xyz_type(red)),
        ([0x67, 0x58, 0x59, 0x5a], xyz_type(green)),
        ([0x62, 0x58, 0x59, 0x5a], xyz_type(blue)),
        ([0x72, 0x54, 0x52, 0x43], first),
        ([0x67, 0x54, 0x52, 0x43], second),
        ([0x62, 0x54, 0x52, 0x43], shape),
        ([0x63, 0x70, 0x72, 0x74], notice),
    ];
    proof {
        reveal(desc_bytes);
        reveal(xyz_bytes);
        reveal(sf32_bytes);
        reveal(curve_bytes);
        reveal(text_bytes);
    }
    assert(tags@[0].0@ =~= sig(0x64, 0x65, 0x73, 0x63));
    assert(tags@[1].0@ =~= sig(0x77, 0x74, 0x70, 0x74));
    assert(tags@[2].0@ =~= sig(0x63, 0x68, 0x61, 0x64));
    assert(tags@[3].0@ =~= sig(0x72, 0x58, 0x59, 0x5a));
    assert(tags@[4].0@ =~= sig(0x67, 0x58, 0x59, 0x5a));
    assert(tags@[5].0@ =~= sig(0x62, 0x58, 0x59, 0x5a));
    assert(tags@[6].0@ =~= sig(0x72, 0x54, 0x52, 0x43));
    assert(tags@[7].0@ =~= sig(0x67, 0x54, 0x52, 0x43));
    assert(tags@[8].0@ =~= sig(0x62, 0x54, 0x52, 0x43));
    assert(tags@[9].0@ =~= sig(0x63, 0x70, 0x72, 0x74));
    tags
}

/// The lengths of the first `i` tags' data, added up.
pub open spec fn data_total(tags: Seq<([u8; 4], Vec<u8>)>, i: int) -> int
    decreases i,
{
    if i <= 0 {
        0
    } else {
        data_total(tags, i - 1) + tags[i - 1].1@.len()
    }
}

proof fn lemma_tag_data_len(tags: Seq<([u8; 4], Vec<u8>)>, i: int)
    requires
        0 <= i,
    ensures
        tag_data(tags, i).len() <= data_total(tags, i) + 3 * i,
    decreases i,
{
    if i > 0 {
        lemma_tag_data_len(tags, i - 1);
    }
}

proof fn lemma_samples_len(points: Seq<u16>)
    ensures
        samples_bytes(points).len() == 2 * points.len(),
    decreases points.len(),
{
    if points.len() > 0 {
        lemma_samples_len(points.drop_last());
    }
}

proof fn lemma_tag_lengths(name: Seq<u8>, raw: [i32; 3], m: [[i32; 3]; 3], curve: Seq<u16>)
    ensures
        desc_bytes(name).len() == name.len() + 91,
        xyz_bytes(raw).len() == 20,
        sf32_bytes(m).len() == 44,
        curve_bytes(curve).len() == 12 + 2 * curve.len(),
        text_bytes(copyright()).len() == 22,
{
    reveal(desc_bytes);
    reveal(xyz_bytes);
    reveal(sf32_bytes);
    reveal(curve_bytes);
    reveal(text_bytes);
    lemma_samples_len(curve);
}

proof fn lemma_profile_fits(
    tags: Seq<([u8; 4], Vec<u8>)>,
    name: Seq<u8>,
    d50: [i32; 3],
    chad: [[i32; 3]; 3],
    red: [i32; 3],
    green: [i32; 3],
    blue: [i32; 3],
    curve: Seq<u16>,
)
    requires
        profile_tags_ok(tags, name, d50, chad, red, green, blue, curve),
        name.len() + 6 * curve.len() + 600 <= u32::MAX,
    ensures
        table_end(tags.len() as int) + tag_data(tags, tags.len() as int).len() <= u32::MAX,
{
    lemma_tag_data_len(tags, 10);
    lemma_tag_lengths(name, d50, chad, curve);
    lemma_tag_lengths(name, red, chad, curve);
    lemma_tag_lengths(name, green, chad, curve);
    lemma_tag_lengths(name, blue, chad, curve);
    assert(data_total(tags, 10) == name.len() + 6 * curve.len() + 273) by {
        reveal_with_fuel(data_total, 11);
    }
}

proof fn lemma_profile_signatures_distinct(
    tags: Seq<([u8; 4], Vec<u8>)>,
    name: Seq<u8>,
    d50: [i32; 3],
    chad: [[i32; 3]; 3],
    red: [i32; 3],
    green: [i32; 3],
    blue: [i32; 3],
    curve: Seq<u16>,
)
    requires
        profile_tags_ok(tags, name, d50, chad, red, green, blue, curve),
    ensures
        distinct_signatures(tags),
{
    assert forall|a: int, b: int| 0 <= a < tags.len() && 0 <= b < tags.len() && a != b implies #[trigger] tags[a].0@
        != #[trigger] tags[b].0@ by {
        if tags[a].0@ == tags[b].0@ {
            assert(be32(tags[a].0@, 0) == be32(tags[b].0@, 0));
        }
    }
}

proof fn lemma_row_at(p: Seq<u8>, at: int, r: [i32; 3])
    requires
        0 <= at,
        at + 12 <= p.len(),
        p.subrange(at, at + 12) == row_bytes(r),
    ensures
        be32_signed(p, at) == r[0],
        be32_signed(p, at + 4) == r[1],
        be32_signed(p, at + 8) == r[2],
{
    let d = p.subrange(at, at + 12);
    lemma_be32_signed_round_trip(r[0] as int);
    lemma_be32_signed_round_trip(r[1] as int);
    lemma_be32_signed_round_trip(r[2] as int);
    assert(d.subrange(0, 4) =~= be32_bytes(r[0] as int));
    assert(d.subrange(4, 8) =~= be32_bytes(r[1] as int));
    assert(d.subrange(8, 12) =~= be32_bytes(r[2] as int));
    assert(be32_signed(p, at) == be32_signed(d.subrange(0, 4), 0));
    assert(be32_signed(p, at + 4) == be32_signed(d.subrange(4, 8), 0));
    assert(be32_signed(p, at + 8) == be32_signed(d.subrange(8, 12), 0));
}

proof fn lemma_sf32_rows(m: [[i32; 3]; 3])
    ensures
        sf32_bytes(m).len() == 44,
        sf32_bytes(m).subrange(0, 4) == sig(0x73, 0x66, 0x33, 0x32),
        sf32_bytes(m).subrange(8, 20) == row_bytes(m[0]),
        sf32_bytes(m).subrange(20, 32) == row_bytes(m[1]),
        sf32_bytes(m).subrange(32, 44) == row_bytes(m[2]),
{
    reveal(sf32_bytes);
    let d = sf32_bytes(m);
    let r0 = row_bytes(m[0]);
    let r1 = row_bytes(m[1]);
    let r2 = row_bytes(m[2]);
    assert(r0.len() == 12 && r1.len() == 12 && r2.len() == 12);
    assert(d.subrange(0, 4) =~= sig(0x73, 0x66, 0x33, 0x32));
    assert(d.subrange(8, 20) =~= r0);
    assert(d.subrange(20, 32) =~= r1);
    assert(d.subrange(32, 44) =~= r2);
}

proof fn lemma_sf32_at(p: Seq<u8>, lo: int, m: [[i32; 3]; 3])
    requires
        0 <= lo,
        lo + 44 <= p.len(),
        p.subrange(lo, lo + 44) == sf32_bytes(m),
    ensures
        p.subrange(lo, lo + 4) == sig(0x73, 0x66, 0x33, 0x32),
        be32_signed(p, lo + 8) == m[0][0],
        be32_signed(p, lo + 12) == m[0][1],
        be32_signed(p, lo + 16) == m[0][2],
        be32_signed(p, lo + 20) == m[1][0],
        be32_signed(p, lo + 24) == m[1][1],
        be32_signed(p, lo + 28) == m[1][2],
        be32_signed(p, lo + 32) == m[2][0],
        be32_signed(p, lo + 36) == m[2][1],
        be32_signed(p, lo + 40) == m[2][2],
{
    lemma_sf32_rows(m);
    let d = p.subrange(lo, lo + 44);
    assert(p.subrange(lo, lo + 4) =~= d.subrange(0, 4));
    assert(p.subrange(lo + 8, lo + 20) =~= d.subrange(8, 20));
    assert(p.subrange(lo + 20, lo + 32) =~= d.subrange(20, 32));
    assert(p.subrange(lo + 32, lo + 44) =~= d.subrange(32, 44));
    lemma_row_at(p, lo + 8, m[0]);
    lemma_row_at(p, lo + 20, m[1]);
    lemma_row_at(p, lo + 32, m[2]);
}

proof fn lemma_xyz_tag_reads_back(tags: Seq<([u8; 4], Vec<u8>)>, pcs: [i32; 3], j: int, raw: [i32; 3])
    requires
        table_end(tags.len() as int) + tag_data(tags, tags.len() as int).len() <= u32::MAX,
        tags.len() <= MAX_TAGS,
        distinct_signatures(tags),
        0 <= j < tags.len(),
        tags[j].1@ == xyz_bytes(raw),
    ensures
        xyz_from(written_profile(tags, pcs), tags.len() as int, tags[j].0@) == Some(xyz_view(raw)),
{
    reveal(xyz_bytes);
    lemma_written_tags_read_back(tags, pcs, j, raw);
}

#[verifier::spinoff_prover]
#[verifier::rlimit(40)]
proof fn lemma_sf32_tag_reads_back(tags: Seq<([u8; 4], Vec<u8>)>, pcs: [i32; 3], j: int, m: [[i32; 3]; 3])
    requires
        table_end(tags.len() as int) + tag_data(tags, tags.len() as int).len() <= u32::MAX,
        tags.len() <= MAX_TAGS,
        distinct_signatures(tags),
        0 <= j < tags.len(),
        tags[j].1@ == sf32_bytes(m),
    ensures
        sf32_from(written_profile(tags, pcs), tags.len() as int, tags[j].0@) == Some(sf32_view(m)),
{
    lemma_written_tags_read_back(tags, pcs, j, m[0]);
    lemma_written_data(tags, pcs, j);
    lemma_sf32_rows(m);
    let p = written_profile(tags, pcs);
    let at = tag_offset(tags, j);
    lemma_sf32_at(p, at, m);
    assert(Seq::new(9, |k: int| be32_signed(p, at + 8 + 4 * k)) =~= sf32_view(m));
}

/// What is written is what is read: a profile laid out from the tags of a
/// space reads back as that space's red, green and blue colorants, its
/// adaptation into D50, and the D50 white point, exactly as written.
pub proof fn lemma_profile_reads_back(
    tags: Seq<([u8; 4], Vec<u8>)>,
    name: Seq<u8>,
    d50: [i32; 3],
    chad: [[i32; 3]; 3],
    red: [i32; 3],
    green: [i32; 3],
    blue: [i32; 3],
    curve: Seq<u16>,
)
    requires
        profile_tags_ok(tags, name, d50, chad, red, green, blue, curve),
        name.len() + 6 * curve.len() + 600 <= u32::MAX,
    ensures
        tags_found(written_profile(tags, d50)) == Some(
            (xyz_view(red), xyz_view(green), xyz_view(blue), Some(sf32_view(chad)), Some(xyz_view(d50))),
        ),
{
    lemma_profile_fits(tags, name, d50, chad, red, green, blue, curve);
    lemma_profile_signatures_distinct(tags, name, d50, chad, red, green, blue, curve);
    lemma_written_frame(tags, d50);
    lemma_xyz_tag_reads_back(tags, d50, 3, red);
    lemma_xyz_tag_reads_back(tags, d50, 4, green);
    lemma_xyz_tag_reads_back(tags, d50, 5, blue);
    lemma_xyz_tag_reads_back(tags, d50, 1, d50);
    lemma_sf32_tag_reads_back(tags, d50, 2, chad);
}

/// Two tag lists with the same signatures and the same bytes, in order.
pub open spec fn same_tags(a: Seq<([u8; 4], Vec<u8>)>, b: Seq<([u8; 4], Vec<u8>)>) -> bool {
    &&& a.len() == b.len()
    &&& forall|i: int| #![trigger a[i]] 0 <= i < a.len() ==> a[i].0@ == b[i].0@ && a[i].1@ == b[i].1@
}

proof fn lemma_same_tags_same_data(a: Seq<([u8; 4], Vec<u8>)>, b: Seq<([u8; 4], Vec<u8>)>, i: int)
    requires
        same_tags(a, b),
        i <= a.len(),
    ensures
        tag_data(a, i) == tag_data(b, i),
    decreases i,
{
    if i > 0 {
        lemma_same_tags_same_data(a, b, i - 1);
        assert(a[i - 1].1@ == b[i - 1].1@);
    }
}

proof fn lemma_same_tags_same_table(a: Seq<([u8; 4], Vec<u8>)>, b: Seq<([u8; 4], Vec<u8>)>, i: int)
    requires
        same_tags(a, b),
        i <= a.len(),
    ensures
        tag_table(a, i) == tag_table(b, i),
    decreases i,
{
    if i > 0 {
        lemma_same_tags_same_table(a, b, i - 1);
        lemma_same_tags_same_data(a, b, i - 1);
        assert(a[i - 1].0@ == b[i - 1].0@ && a[i - 1].1@ == b[i - 1].1@);
        assert(tag_offset(a, i - 1) == tag_offset(b, i - 1));
    }
}

/// The bytes laid out depend on the tags' signatures and bytes alone.
proof fn lemma_same_tags_same_profile(a: Seq<([u8; 4], Vec<u8>)>, b: Seq<([u8; 4], Vec<u8>)>, pcs: [i32; 3])
    requires
        same_tags(a, b),
    ensures
        written_profile(a, pcs) == written_profile(b, pcs),
{
    lemma_same_tags_same_data(a, b, a.len() as int);
    lemma_same_tags_same_table(a, b, a.len() as int);
    assert(profile_body(a) == profile_body(b));
}

/// The profile for these numbers: its tags, as [`profile_tags_ok`] describes
/// them, laid out with D50 as the connection space's illuminant.
pub open spec fn profile_image(
    name: Seq<u8>,
    d50: [i32; 3],
    chad: [[i32; 3]; 3],
    red: [i32; 3],
    green: [i32; 3],
    blue: [i32; 3],
    curve: Seq<u16>,
) -> Seq<u8> {
    written_profile(
        choose|t: Seq<([u8; 4], Vec<u8>)>| profile_tags_ok(t, name, d50, chad, red, green, blue, curve),
        d50,
    )
}

/// Any list of the profile's tags lays out as [`profile_image`]: which list
/// of tags is written does not matter, only what they hold.
pub proof fn lemma_profile_image_is_its_tags_laid_out(
    tags: Seq<([u8; 4], Vec<u8>)>,
    name: Seq<u8>,
    d50: [i32; 3],
    chad: [[i32; 3]; 3],
    red: [i32; 3],
    green: [i32; 3],
    blue: [i32; 3],
    curve: Seq<u16>,
)
    requires
        profile_tags_ok(tags, name, d50, chad, red, green, blue, curve),
    ensures
        profile_image(name, d50, chad, red, green, blue, curve) == written_profile(tags, d50),
{
    let t = choose|t: Seq<([u8; 4], Vec<u8>)>| profile_tags_ok(t, name, d50, chad, red, green, blue, curve);
    assert(profile_tags_ok(t, name, d50, chad, red, green, blue, curve));
    assert forall|i: int| #![trigger t[i]] 0 <= i < t.len() implies t[i].0@ == tags[i].0@ && t[i].1@ == tags[i].1@ by {
        assert(0 <= i < 10);
    }
    lemma_same_tags_same_profile(t, tags, d50);
}

/// A matrix/TRC profile for the space named `name`: the tags of
/// [`profile_tags`], laid out by [`lay_out_profile`] with D50 as the
/// connection space's illuminant. It reads back as what was written into it.
pub fn profile_for(
    name: &str,
    d50: [i32; 3],
    chad: [[i32; 3]; 3],
    red: [i32; 3],
    green: [i32; 3],
    blue: [i32; 3],
    curve: &[u16],
) -> (out: Vec<u8>)
    requires
        name.spec_bytes().len() + 6 * curve@.len() + 600 <= u32::MAX,
    ensures
        out@ == profile_image(name.spec_bytes(), d50, chad, red, green, blue, curve@),
        tags_found(out@) == Some(
            (xyz_view(red), xyz_view(green), xyz_view(blue), Some(sf32_view(chad)), Some(xyz_view(d50))),
        ),
        table_well_formed(out@),
        be32(out@, TAG_COUNT_AT as int) == 10,
{
    let tags = profile_tags(name, d50, chad, red, green, blue, curve);
    proof {
        lemma_profile_fits(tags@, name.spec_bytes(), d50, chad, red, green, blue, curve@);
        lemma_profile_reads_back(tags@, name.spec_bytes(), d50, chad, red, green, blue, curve@);
        lemma_tag_table_is_well_formed(tags@, d50);
        lemma_profile_image_is_its_tags_laid_out(tags@, name.spec_bytes(), d50, chad, red, green, blue, curve@);
    }
    let out = lay_out_profile(&tags, d50);
    out
}

} // verus!
