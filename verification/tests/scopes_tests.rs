use kroma::scopes::{
    scope_data, scope_shape, scope_view, ColourSpread, Histogram, PeScope, Scopes, Vectorscope, Waveform,
    WarperClouds, BUFFER_TOO_SMALL, NOTHING_MEASURED,
};

fn histogram(seed: u32, total: u32) -> Histogram {
    Histogram {
        red: (0..256).map(|i| i + seed).collect(),
        green: (0..256).map(|i| 2 * i + seed).collect(),
        blue: (0..256).map(|i| 3 * i + seed).collect(),
        luma: (0..256).map(|i| (i % 5) + seed).collect(),
        total,
    }
}

fn measured() -> Scopes {
    let columns = 3u32;
    let plane = |k: u32| -> Vec<u32> { (0..columns * 256).map(|i| i * k).collect() };
    Scopes {
        histogram: histogram(0, 640 * 480),
        log_histogram: histogram(1, 640 * 480),
        colour: ColourSpread {
            hue: (0..256).collect(),
            saturation: (0..256).map(|i| 255 - i).collect(),
            total: 640 * 480,
        },
        waveform: Waveform { red: plane(1), green: plane(2), blue: plane(3), luma: plane(4), columns, rows: 480 },
        vectorscope: Vectorscope { bins: (0..256 * 256).map(|i| i % 1000).collect(), total: 640 * 480 },
        warper: WarperClouds {
            chromaticity: vec![1; 128 * 128],
            hue_sat: vec![2; 128 * 128],
            chroma_luma: (0..128 * 128).collect(),
        },
    }
}

#[test]
fn each_scope_shape_matches_what_it_copies() {
    let sc = measured();
    for kind in PeScope::ALL {
        let shape = scope_shape(Some(&sc), kind).expect("measured");
        let wanted = (shape.planes * shape.width * shape.height) as usize;
        let mut out = Vec::new();
        let n = scope_data(Some(&sc), kind, &mut out, wanted as u32);
        assert_eq!(n, wanted as i32, "{kind:?}");
        assert_eq!(out.len(), wanted, "{kind:?}");
        assert_eq!(shape.peak, out.iter().copied().max().unwrap_or(0), "{kind:?}");
    }
}

#[test]
fn a_scope_read_before_measuring_is_refused() {
    let mut out = vec![7];
    assert_eq!(scope_data(None, PeScope::Histogram, &mut out, 1024), NOTHING_MEASURED);
    assert_eq!(out, vec![7]);
    assert!(scope_shape(None, PeScope::Waveform).is_none());
}

#[test]
fn a_short_buffer_is_refused_rather_than_filled() {
    let sc = measured();
    let mut out = Vec::new();
    assert_eq!(scope_data(Some(&sc), PeScope::Histogram, &mut out, 1023), BUFFER_TOO_SMALL);
    assert!(out.is_empty());
    assert_eq!(scope_data(Some(&sc), PeScope::Histogram, &mut out, 1024), 1024);
}

#[test]
fn a_histogram_crosses_as_red_green_blue_luma() {
    let sc = measured();
    let mut out = Vec::new();
    scope_data(Some(&sc), PeScope::Histogram, &mut out, 4096);
    assert_eq!(&out[0..256], &sc.histogram.red[..]);
    assert_eq!(&out[256..512], &sc.histogram.green[..]);
    assert_eq!(&out[512..768], &sc.histogram.blue[..]);
    assert_eq!(&out[768..1024], &sc.histogram.luma[..]);
    let shape = scope_shape(Some(&sc), PeScope::Histogram).unwrap();
    assert_eq!((shape.planes, shape.width, shape.height, shape.total), (4, 256, 1, 640 * 480));
    assert_eq!(shape.peak, 765);
}

#[test]
fn a_waveform_is_read_against_the_rows_that_fed_it() {
    let sc = measured();
    let v = scope_view(&sc, PeScope::Waveform);
    assert_eq!((v.planes.len(), v.width, v.height, v.total), (4, 256, 3, 480));
    assert_eq!(v.len(), 4 * 3 * 256);
}

#[test]
fn the_warper_grids_borrow_the_histogram_count() {
    let sc = measured();
    for kind in [PeScope::WarperChromaticity, PeScope::WarperHueSat, PeScope::WarperChromaLuma] {
        let v = scope_view(&sc, kind);
        assert_eq!((v.planes.len(), v.width, v.height, v.total), (1, 128, 128, 640 * 480));
    }
    assert_eq!(scope_view(&sc, PeScope::WarperHueSat).peak(), 2);
}

#[test]
fn an_empty_scope_peaks_at_zero() {
    let v = kroma::scopes::ScopeView { planes: vec![&[][..]], width: 0, height: 0, total: 0 };
    assert_eq!(v.peak(), 0);
    assert_eq!(v.len(), 0);
}

#[test]
fn scopes_keep_their_numbers() {
    for (n, kind) in PeScope::ALL.iter().enumerate() {
        assert_eq!(kind.number(), n as u32);
        assert_eq!(PeScope::from_number(n as u32), Some(*kind));
    }
    assert_eq!(PeScope::from_number(8), None);
}
