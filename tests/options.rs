use obj2three::options::{align_option, Alignment, InvertTransparency, OutputFormat, Smoothing};
use std::str::FromStr;

#[test]
fn alignment_names_read_back() {
    let all = [
        Alignment::Center,
        Alignment::Centerxz,
        Alignment::Top,
        Alignment::Bottom,
        Alignment::Unaligned,
    ];
    for a in all {
        assert_eq!(Alignment::parse(a.name()), Ok(a));
        assert_eq!(Alignment::from_str(a.name()), Ok(a));
    }
    assert_eq!(Alignment::Center.name(), "center");
    assert_eq!(Alignment::Centerxz.name(), "centerxz");
    assert_eq!(Alignment::Top.name(), "top");
    assert_eq!(Alignment::Bottom.name(), "bottom");
    assert_eq!(Alignment::Unaligned.name(), "none");
}

#[test]
fn alignment_rejects_unknown_names() {
    assert_eq!(Alignment::parse(""), Err(()));
    assert_eq!(Alignment::parse("Center"), Err(()));
    assert_eq!(Alignment::parse("center "), Err(()));
    assert_eq!(Alignment::parse("xz"), Err(()));
}

#[test]
fn alignment_policy() {
    assert_eq!(Alignment::Center.policy(), Some(align_option::center));
    assert_eq!(Alignment::Centerxz.policy(), Some(align_option::xz));
    assert_eq!(Alignment::Top.policy(), Some(align_option::top));
    assert_eq!(Alignment::Bottom.policy(), Some(align_option::bottom));
    assert_eq!(Alignment::Unaligned.policy(), None);
}

#[test]
fn smoothing_names() {
    assert_eq!(Smoothing::parse("smooth"), Ok(Smoothing::Smooth));
    assert_eq!(Smoothing::parse("flat"), Ok(Smoothing::Flat));
    assert_eq!(Smoothing::parse("smoothed"), Err(()));
    assert_eq!(Smoothing::Smooth.name(), "smooth");
    assert_eq!(Smoothing::Flat.name(), "flat");
}

#[test]
fn output_format_names() {
    assert_eq!(OutputFormat::from_str("ascii"), Ok(OutputFormat::Ascii));
    assert_eq!(OutputFormat::from_str("binary"), Ok(OutputFormat::Binary));
    assert_eq!(OutputFormat::from_str("bin"), Err(()));
    assert_eq!(OutputFormat::Ascii.name(), "ascii");
    assert_eq!(OutputFormat::Binary.name(), "binary");
}

#[test]
fn invert_transparency_names() {
    assert_eq!(InvertTransparency::parse("invert"), Ok(InvertTransparency::Invert));
    assert_eq!(InvertTransparency::parse("normal"), Ok(InvertTransparency::Normal));
    assert_eq!(InvertTransparency::parse("inverted"), Err(()));
    assert_eq!(InvertTransparency::Invert.name(), "invert");
    assert_eq!(InvertTransparency::Normal.name(), "normal");
}
