use blog_publish::image::{
    ImageArguments, ImageFormat, ImageSize, SizeSpec, Unit, BASE_DPCM, CONTENT_WIDTH,
};

#[test]
fn formats_are_read_in_any_case() {
    assert_eq!(ImageFormat::from_str("l").unwrap(), ImageFormat::Landscape);
    assert_eq!(ImageFormat::from_str("Landscape").unwrap(), ImageFormat::Landscape);
    assert_eq!(ImageFormat::from_str("P").unwrap(), ImageFormat::Portrait);
    assert_eq!(ImageFormat::from_str("PORTRAIT").unwrap(), ImageFormat::Portrait);
    let e = ImageFormat::from_str("square").unwrap_err();
    assert_eq!(e.to_string(), "Unknown image format 'square'");
}

#[test]
fn format_names_round_trip() {
    for f in [ImageFormat::Landscape, ImageFormat::Portrait] {
        assert_eq!(ImageFormat::from_str(&f.to_string()).unwrap(), f);
    }
    assert_eq!(ImageFormat::Landscape.to_string(), "Landscape");
    assert_eq!(ImageFormat::Portrait.to_string(), "Portrait");
}

#[test]
fn paper_sizes_in_pixels() {
    let expected = [
        (ImageSize::A5, 873, 1239),
        (ImageSize::A6, 620, 873),
        (ImageSize::A7, 437, 620),
        (ImageSize::A8, 307, 437),
        (ImageSize::A9, 218, 307),
        (ImageSize::A10, 153, 218),
    ];
    for (size, short, long) in expected {
        assert_eq!(size.short_dimension(), short);
        assert_eq!(size.long_dimension(), long);
        assert_eq!(size.width(&ImageFormat::Landscape), long);
        assert_eq!(size.height(&ImageFormat::Landscape), short);
        assert_eq!(size.width(&ImageFormat::Portrait), short);
        assert_eq!(size.height(&ImageFormat::Portrait), long);
    }
}

#[test]
fn mm_to_px_matches_float_rounding_for_paper_sides() {
    for mm in [26usize, 37, 52, 74, 105, 148, 210] {
        let float = ((mm as f32) * 0.1 * (BASE_DPCM as f32)).round() as usize;
        assert_eq!(ImageSize::mm_to_px(mm), float);
    }
}

#[test]
fn custom_sizes_have_short_and_long_sides() {
    let s = ImageSize::Custom(800, 600);
    assert_eq!(s.short_dimension(), 600);
    assert_eq!(s.long_dimension(), 800);
    let t = ImageSize::Custom(300, 900);
    assert_eq!(t.width(&ImageFormat::Landscape), 900);
    assert_eq!(t.height(&ImageFormat::Portrait), 900);
    assert_eq!(t.to_string(), "300px×900px");
    assert_eq!(ImageSize::A10.to_string(), "A10");
}

#[test]
fn thumbnails_fit_the_content_column() {
    let (size, format) = ImageSize::A5.thumbnail_size(&ImageFormat::Landscape);
    assert_eq!((size, format), (ImageSize::A7, ImageFormat::Landscape));
    assert!(size.width(&format) <= CONTENT_WIDTH);
    let (size, format) = ImageSize::Custom(4000, 3000).thumbnail_size(&ImageFormat::Portrait);
    assert_eq!((size, format), (ImageSize::A6, ImageFormat::Portrait));
    assert!(size.width(&format) <= CONTENT_WIDTH);
}

fn measured(s: &str) -> ((String, Option<String>, Unit), (String, Option<String>, Unit)) {
    match ImageSize::from_str(s).unwrap() {
        SizeSpec::Measured(a, b) => ((a.whole, a.fraction, a.unit), (b.whole, b.fraction, b.unit)),
        SizeSpec::Paper(_) => panic!("paper size"),
    }
}

#[test]
fn sizes_are_read() {
    for (name, size) in [
        ("A5", ImageSize::A5),
        ("A6", ImageSize::A6),
        ("A7", ImageSize::A7),
        ("A8", ImageSize::A8),
        ("A9", ImageSize::A9),
        ("A10", ImageSize::A10),
    ] {
        match ImageSize::from_str(name).unwrap() {
            SizeSpec::Paper(p) => assert_eq!(p, size),
            SizeSpec::Measured(..) => panic!(),
        }
    }
    assert_eq!(
        measured("800x600"),
        (("800".into(), None, Unit::Pixel), ("600".into(), None, Unit::Pixel))
    );
    assert_eq!(
        measured(" 10.5cm × 4in "),
        (
            ("10".into(), Some("5".into()), Unit::Centimetre),
            ("4".into(), None, Unit::Inch)
        )
    );
    assert_eq!(
        measured("12MM X 3.\""),
        (
            ("12".into(), None, Unit::Millimetre),
            ("3".into(), Some("".into()), Unit::Inch)
        )
    );
    assert_eq!(
        measured("20x7Px"),
        (("20".into(), None, Unit::Pixel), ("7".into(), None, Unit::Pixel))
    );
    // The first `x` separates the dimensions, also the one in a first `px`.
    assert!(ImageSize::from_str("20pxx7Px").is_err());
}

#[test]
fn invalid_sizes_are_refused() {
    for s in ["a5", "800", "800x", "x600", "800x600x2", "8 px x 6", "800xsix", "800 x 600 pt", ""] {
        let e = ImageSize::from_str(s).unwrap_err();
        assert_eq!(e.to_string(), format!("Invalid value for image size '{}'", s));
    }
}

#[test]
fn custom_size_names_split_at_the_first_x() {
    let s = ImageSize::Custom(1024, 768);
    assert_eq!(s.to_string(), "1024px×768px");
    assert!(ImageSize::from_str(&s.to_string()).is_err());
    assert_eq!(
        measured("1024×768px"),
        (("1024".into(), None, Unit::Pixel), ("768".into(), None, Unit::Pixel))
    );
}

#[test]
fn arguments_with_all_attributes() {
    let a = ImageArguments::parse(
        "source=cat.png, size=A6, format=p, watermark=false, full-link=true",
        "A cat",
    )
    .unwrap();
    assert_eq!(a.filename, "cat.png");
    assert_eq!(a.alt, "A cat");
    match a.size_format {
        Some((SizeSpec::Paper(ImageSize::A6), ImageFormat::Portrait)) => {}
        other => panic!("{:?}", other),
    }
    assert!(!a.watermark);
    assert!(a.full_link);
}

#[test]
fn arguments_defaults() {
    let a = ImageArguments::parse("source=dog.jpg,", "").unwrap();
    assert_eq!(a.filename, "dog.jpg");
    assert!(a.size_format.is_none());
    assert!(a.watermark);
    assert!(!a.full_link);
}

#[test]
fn argument_errors() {
    let err = |attrs: &str| ImageArguments::parse(attrs, "alt").unwrap_err();
    assert_eq!(err("size=A5"), "A draft.image tag was found without an image name.");
    assert_eq!(
        err("source=a.png,size=A5"),
        "A draft image specified a size attribute without a format."
    );
    assert_eq!(
        err("source=a.png,format=l"),
        "A draft image specified a format attribute without a size."
    );
    assert_eq!(
        err("source=a.png,size=huge"),
        "error parsing size attribute for a.png: Invalid value for image size 'huge'"
    );
    assert_eq!(
        err("size=huge,source=a.png"),
        "error parsing size attribute for an image: Invalid value for image size 'huge'"
    );
    assert_eq!(
        err("source=a.png,format=wide"),
        "error parsing format attribute for a.png: Unknown image format 'wide'"
    );
    assert_eq!(
        err("source=a.png,watermark=yes"),
        "error parsing watermark attribute for a.png: provided string was not `true` or `false`"
    );
    assert_eq!(
        err("source=a.png,full-link=1"),
        "error parsing full-link attribute for a.png: provided string was not `true` or `false`"
    );
    assert_eq!(
        err("source=a.png,colour=red"),
        "Found unknown attribute in a draft.image tag: colour=red"
    );
    assert_eq!(
        err("source=a.png,size = A5"),
        "Found unknown attribute in a draft.image tag: size = A5"
    );
    assert_eq!(err("source=a.png,bold"), "Found unknown attribute in a draft.image tag: bold");
}

#[test]
fn bool_error_message_is_std() {
    let e = "yes".parse::<bool>().unwrap_err().to_string();
    assert_eq!(e, "provided string was not `true` or `false`");
}

#[test]
fn source_value_may_hold_equal_signs() {
    let a = ImageArguments::parse("source=a=b.png", "x").unwrap();
    assert_eq!(a.filename, "a=b.png");
}
