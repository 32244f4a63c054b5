use kroma::icc::{
    be_i32, be_u32, find_tag, lay_out_profile, profile_for, profile_tags, read_profile_tags, sf32_type,
    text_description, text_type, trc, xyz_type, ProfileTags,
};

const D50: [i32; 3] = [63190, 65536, 54061];
const CHAD: [[i32; 3]; 3] = [[68674, 1502, -3290], [1939, 64912, -1123], [-605, 988, 80199]];
const RED: [i32; 3] = [28578, 14581, 912];
const GREEN: [i32; 3] = [25241, 47038, 6392];
const BLUE: [i32; 3] = [9376, 3917, 46756];

fn sample_profile() -> Vec<u8> {
    let curve: Vec<u16> = (0..1024u32).map(|i| (i * 64) as u16).collect();
    profile_for("sRGB", D50, CHAD, RED, GREEN, BLUE, &curve)
}

/// A minimal profile around three colorant tags, laid out by hand.
fn profile_with(r: [i32; 3], g: [i32; 3], b: [i32; 3]) -> Vec<u8> {
    let tags: [(&[u8; 4], [i32; 3]); 3] = [(b"rXYZ", r), (b"gXYZ", g), (b"bXYZ", b)];
    let table_at = 132;
    let data_at = table_at + tags.len() * 12;
    let mut out = vec![0u8; data_at];
    out[128..132].copy_from_slice(&(tags.len() as u32).to_be_bytes());
    for (i, (sig, xyz)) in tags.iter().enumerate() {
        let entry = table_at + i * 12;
        let at = out.len() as u32;
        out[entry..entry + 4].copy_from_slice(*sig);
        out[entry + 4..entry + 8].copy_from_slice(&at.to_be_bytes());
        out[entry + 8..entry + 12].copy_from_slice(&20u32.to_be_bytes());
        out.extend_from_slice(b"XYZ ");
        out.extend_from_slice(&[0; 4]);
        for v in xyz {
            out.extend_from_slice(&v.to_be_bytes());
        }
    }
    let size = out.len() as u32;
    out[0..4].copy_from_slice(&size.to_be_bytes());
    out
}

#[test]
fn the_colorants_of_a_hand_laid_profile_are_read() {
    let p = profile_with([1, -2, 3], [4, 5, 6], [7, 8, -9]);
    let found = read_profile_tags(&p).expect("read");
    assert_eq!(found.red, [1, -2, 3]);
    assert_eq!(found.green, [4, 5, 6]);
    assert_eq!(found.blue, [7, 8, -9]);
    assert_eq!(found.chad, None);
    assert_eq!(found.white, None);
}

#[test]
fn rubbish_is_declined_by_the_tag_reader() {
    assert!(read_profile_tags(&[]).is_none());
    assert!(read_profile_tags(&[0; 4]).is_none());
    assert!(read_profile_tags(&[0xff; 200]).is_none(), "a huge declared size");
    let good = profile_with([26214, 13107, 0], [19661, 45875, 6554], [6554, 6554, 45875]);
    for cut in [0, 1, 100, 131, 140, good.len() - 1] {
        assert!(read_profile_tags(&good[..cut]).is_none(), "survived a cut at {cut}");
    }
    let mut lying = good.clone();
    lying[0..4].copy_from_slice(&u32::MAX.to_be_bytes());
    assert!(read_profile_tags(&lying).is_none());
}

#[test]
fn a_profile_with_too_many_tags_is_declined() {
    let mut p = profile_with([1, 2, 3], [4, 5, 6], [7, 8, 9]);
    p[128..132].copy_from_slice(&2000u32.to_be_bytes());
    assert!(read_profile_tags(&p).is_none());
}

#[test]
fn what_is_written_is_what_is_read() {
    let p = sample_profile();
    assert_eq!(
        read_profile_tags(&p),
        Some(ProfileTags { red: RED, green: GREEN, blue: BLUE, chad: Some(CHAD), white: Some(D50) })
    );
}

#[test]
fn a_written_profile_is_the_same_bytes_every_time() {
    assert_eq!(sample_profile(), sample_profile());
}

#[test]
fn the_written_header_says_what_it_should() {
    let p = sample_profile();
    assert_eq!(u32::from_be_bytes(p[0..4].try_into().unwrap()) as usize, p.len());
    assert_eq!(&p[8..12], &[0x02, 0x10, 0, 0]);
    assert_eq!(&p[12..16], b"mntr");
    assert_eq!(&p[16..20], b"RGB ");
    assert_eq!(&p[20..24], b"XYZ ");
    assert_eq!(&p[24..26], &2026u16.to_be_bytes());
    assert_eq!(&p[36..40], b"acsp");
    let pcs = [
        i32::from_be_bytes(p[68..72].try_into().unwrap()),
        i32::from_be_bytes(p[72..76].try_into().unwrap()),
        i32::from_be_bytes(p[76..80].try_into().unwrap()),
    ];
    assert_eq!(pcs, D50);
}

#[test]
fn the_written_tag_table_is_well_formed() {
    let p = sample_profile();
    let count = u32::from_be_bytes(p[128..132].try_into().unwrap()) as usize;
    assert_eq!(count, 10);
    let mut signatures = Vec::new();
    for i in 0..count {
        let entry = 132 + i * 12;
        signatures.push(p[entry..entry + 4].to_vec());
        let at = u32::from_be_bytes(p[entry + 4..entry + 8].try_into().unwrap()) as usize;
        let size = u32::from_be_bytes(p[entry + 8..entry + 12].try_into().unwrap()) as usize;
        assert_eq!(at % 4, 0, "tag {i} is not aligned");
        assert!(at + size <= p.len(), "tag {i} runs past the end");
    }
    let expected: Vec<Vec<u8>> = [
        b"desc", b"wtpt", b"chad", b"rXYZ", b"gXYZ", b"bXYZ", b"rTRC", b"gTRC", b"bTRC", b"cprt",
    ]
    .iter()
    .map(|s| s.to_vec())
    .collect();
    assert_eq!(signatures, expected);
}

#[test]
fn the_written_curve_holds_the_points_given() {
    let p = sample_profile();
    let (at, size) = find_tag(&p, 10, b"gTRC").expect("a green curve");
    assert_eq!(size, 12 + 2 * 1024);
    assert_eq!(&p[at..at + 4], b"curv");
    assert_eq!(u32::from_be_bytes(p[at + 8..at + 12].try_into().unwrap()), 1024);
    let point = |n: usize| u16::from_be_bytes([p[at + 12 + 2 * n], p[at + 13 + 2 * n]]);
    assert_eq!(point(0), 0);
    assert_eq!(point(3), 192);
    assert_eq!(point(1023), 65472);
}

#[test]
fn the_tags_are_in_the_order_written() {
    let curve = [0u16, 65535];
    let tags = profile_tags("Display P3", D50, CHAD, RED, GREEN, BLUE, &curve);
    assert_eq!(tags.len(), 10);
    assert_eq!(&tags[0].0, b"desc");
    assert_eq!(tags[0].1, text_description("Display P3"));
    assert_eq!(tags[2].1, sf32_type(CHAD));
    assert_eq!(tags[3].1, xyz_type(RED));
    assert_eq!(tags[8].1, trc(&curve));
    assert_eq!(tags[9].1, text_type("Public Domain"));
}

#[test]
fn the_tag_types_are_laid_out_by_the_book() {
    assert_eq!(
        xyz_type([1, -1, 65536]),
        vec![b'X', b'Y', b'Z', b' ', 0, 0, 0, 0, 0, 0, 0, 1, 0xff, 0xff, 0xff, 0xff, 0, 1, 0, 0]
    );
    assert_eq!(text_type("ab"), vec![b't', b'e', b'x', b't', 0, 0, 0, 0, b'a', b'b', 0]);
    let desc = text_description("ab");
    assert_eq!(&desc[0..12], &[b'd', b'e', b's', b'c', 0, 0, 0, 0, 0, 0, 0, 3]);
    assert_eq!(&desc[12..15], b"ab\0");
    assert_eq!(desc.len(), 15 + 78);
    assert_eq!(trc(&[]), vec![b'c', b'u', b'r', b'v', 0, 0, 0, 0, 0, 0, 0, 0]);
    assert_eq!(sf32_type(CHAD).len(), 44);
}

#[test]
fn big_endian_numbers_are_read_where_they_sit() {
    let bytes = [0x00, 0x01, 0x00, 0x00, 0xff, 0xff, 0xff, 0xfe];
    assert_eq!(be_u32(&bytes, 0), Some(65536));
    assert_eq!(be_i32(&bytes, 4), Some(-2));
    assert_eq!(be_u32(&bytes, 5), None);
    assert_eq!(be_i32(&bytes, 8), None);
}

#[test]
fn a_tag_that_is_not_there_is_not_found() {
    let p = profile_with([1, 2, 3], [4, 5, 6], [7, 8, 9]);
    assert_eq!(find_tag(&p, 3, b"gXYZ"), Some((132 + 36 + 20, 20)));
    assert_eq!(find_tag(&p, 3, b"wtpt"), None);
    assert_eq!(find_tag(&p, 1, b"gXYZ"), None);
}

#[test]
fn laying_out_no_tags_gives_a_bare_header() {
    let p = lay_out_profile(&Vec::new(), D50);
    assert_eq!(p.len(), 132);
    assert_eq!(u32::from_be_bytes(p[0..4].try_into().unwrap()), 132);
    assert_eq!(&p[128..132], &[0, 0, 0, 0]);
}
