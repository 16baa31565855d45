//! The values of the converter's command-line options, with their names.
use vstd::prelude::*;
use crate::text::same_text;

verus! {

/// Which reference the alignment of a model's vertices is taken from.
#[allow(non_camel_case_types)]
#[derive(Clone, Copy, Debug, PartialEq, Eq, Structural)]
pub enum align_option {
    /// Align the model on the center of the bounding box
    center,
    /// Align the top of the model with the floor of the bounding box
    top,
    /// Align the bottom of the model with the floor of the bounding box
    bottom,
    /// Center the model on the x and z axis
    xz,
}

/// The `-a` option: how the model is aligned, if at all.
#[derive(Clone, Copy, Debug, PartialEq, Eq, Structural)]
pub enum Alignment {
    /// `center`: on the center of the bounding box.
    Center,
    /// `centerxz`: on the center of the x and z axes only.
    Centerxz,
    /// `top`: the top of the model on the floor, centered on x and z.
    Top,
    /// `bottom`: the bottom of the model on the floor, centered on x and z.
    Bottom,
    /// `none`: the model stays where it is.
    Unaligned,
}

impl Alignment {
    pub open spec fn spec_name(self) -> Seq<char> {
        match self {
            Alignment::Center => "center"@,
            Alignment::Centerxz => "centerxz"@,
            Alignment::Top => "top"@,
            Alignment::Bottom => "bottom"@,
            Alignment::Unaligned => "none"@,
        }
    }

    /// The option's value as written on the command line.
    pub fn name(&self) -> (r: &'static str)
        ensures
            r@ == self.spec_name(),
    {
        match self {
            Alignment::Center => "center",
            Alignment::Centerxz => "centerxz",
            Alignment::Top => "top",
            Alignment::Bottom => "bottom",
            Alignment::Unaligned => "none",
        }
    }

    /// The value whose name is `src`; an error when no value has that name.
    pub fn parse(src: &str) -> (r: Result<Alignment, ()>)
        ensures
            r matches Ok(a) ==> src@ == a.spec_name(),
            r is Err ==> forall|a: Alignment| src@ != #[trigger] a.spec_name(),
    {
        if same_text(src, "center") {
            Ok(Alignment::Center)
        } else if same_text(src, "centerxz") {
            Ok(Alignment::Centerxz)
        } else if same_text(src, "top") {
            Ok(Alignment::Top)
        } else if same_text(src, "bottom") {
            Ok(Alignment::Bottom)
        } else if same_text(src, "none") {
            Ok(Alignment::Unaligned)
        } else {
            proof {
                assert forall|a: Alignment| src@ != #[trigger] a.spec_name() by {
                    match a {
                        Alignment::Center => {},
                        Alignment::Centerxz => {},
                        Alignment::Top => {},
                        Alignment::Bottom => {},
                        Alignment::Unaligned => {},
                    }
                }
            }
            Err(())
        }
    }

    /// The alignment policy to apply, or none when the model stays where it is.
    pub fn policy(&self) -> (r: Option<align_option>)
        ensures
            r == match self {
                Alignment::Center => Some(align_option::center),
                Alignment::Centerxz => Some(align_option::xz),
                Alignment::Top => Some(align_option::top),
                Alignment::Bottom => Some(align_option::bottom),
                Alignment::Unaligned => Option::<align_option>::None,
            },
    {
        match self {
            Alignment::Center => Some(align_option::center),
            Alignment::Centerxz => Some(align_option::xz),
            Alignment::Top => Some(align_option::top),
            Alignment::Bottom => Some(align_option::bottom),
            Alignment::Unaligned => Option::None,
        }
    }
}

/// Distinct values have distinct names, so `parse` reads back what `name` wrote.
pub proof fn lemma_alignment_names_distinct(a: Alignment, b: Alignment)
    ensures
        a.spec_name() == b.spec_name() ==> a == b,
{
    reveal_strlit("center");
    reveal_strlit("centerxz");
    reveal_strlit("top");
    reveal_strlit("bottom");
    reveal_strlit("none");
    if a != b {
        assert(a.spec_name().len() != b.spec_name().len() || a.spec_name()[0] != b.spec_name()[0]);
    }
}

impl std::str::FromStr for Alignment {
    type Err = ();

    fn from_str(src: &str) -> (r: Result<Alignment, ()>)
        ensures
            r matches Ok(a) ==> src@ == a.spec_name(),
            r is Err ==> forall|a: Alignment| src@ != #[trigger] a.spec_name(),
    {
        Alignment::parse(src)
    }
}

/// The `-s` option: whether vertex normals are exported.
#[derive(Clone, Copy, Debug, PartialEq, Eq, Structural)]
pub enum Smoothing {
    /// `smooth`: vertex normals are exported.
    Smooth,
    /// `flat`: no normals; face normals are computed by the loader.
    Flat,
}

impl Smoothing {
    pub open spec fn spec_name(self) -> Seq<char> {
        match self {
            Smoothing::Smooth => "smooth"@,
            Smoothing::Flat => "flat"@,
        }
    }

    /// The option's value as written on the command line.
    pub fn name(&self) -> (r: &'static str)
        ensures
            r@ == self.spec_name(),
    {
        match self {
            Smoothing::Smooth => "smooth",
            Smoothing::Flat => "flat",
        }
    }

    /// The value whose name is `src`; an error when no value has that name.
    pub fn parse(src: &str) -> (r: Result<Smoothing, ()>)
        ensures
            r matches Ok(a) ==> src@ == a.spec_name(),
            r is Err ==> forall|a: Smoothing| src@ != #[trigger] a.spec_name(),
    {
        if same_text(src, "smooth") {
            Ok(Smoothing::Smooth)
        } else if same_text(src, "flat") {
            Ok(Smoothing::Flat)
        } else {
            proof {
                assert forall|a: Smoothing| src@ != #[trigger] a.spec_name() by {
                    match a {
                        Smoothing::Smooth => {},
                        Smoothing::Flat => {},
                    }
                }
            }
            Err(())
        }
    }
}

/// Distinct values have distinct names, so `parse` reads back what `name` wrote.
pub proof fn lemma_smoothing_names_distinct(a: Smoothing, b: Smoothing)
    ensures
        a.spec_name() == b.spec_name() ==> a == b,
{
    reveal_strlit("smooth");
    reveal_strlit("flat");
    if a != b {
        assert(a.spec_name()[0] != b.spec_name()[0]);
    }
}

impl std::str::FromStr for Smoothing {
    type Err = ();

    fn from_str(src: &str) -> (r: Result<Smoothing, ()>)
        ensures
            r matches Ok(a) ==> src@ == a.spec_name(),
            r is Err ==> forall|a: Smoothing| src@ != #[trigger] a.spec_name(),
    {
        Smoothing::parse(src)
    }
}

/// The `-t` option: the format of the output.
#[derive(Clone, Copy, Debug, PartialEq, Eq, Structural)]
pub enum OutputFormat {
    /// `ascii`: the text format, with every feature.
    Ascii,
    /// `binary`: vertices, faces, normals, uvs and materials in a binary buffer.
    Binary,
}

impl OutputFormat {
    pub open spec fn spec_name(self) -> Seq<char> {
        match self {
            OutputFormat::Ascii => "ascii"@,
            OutputFormat::Binary => "binary"@,
        }
    }

    /// The option's value as written on the command line.
    pub fn name(&self) -> (r: &'static str)
        ensures
            r@ == self.spec_name(),
    {
        match self {
            OutputFormat::Ascii => "ascii",
            OutputFormat::Binary => "binary",
        }
    }

    /// The value whose name is `src`; an error when no value has that name.
    pub fn parse(src: &str) -> (r: Result<OutputFormat, ()>)
        ensures
            r matches Ok(a) ==> src@ == a.spec_name(),
            r is Err ==> forall|a: OutputFormat| src@ != #[trigger] a.spec_name(),
    {
        if same_text(src, "ascii") {
            Ok(OutputFormat::Ascii)
        } else if same_text(src, "binary") {
            Ok(OutputFormat::Binary)
        } else {
            proof {
                assert forall|a: OutputFormat| src@ != #[trigger] a.spec_name() by {
                    match a {
                        OutputFormat::Ascii => {},
                        OutputFormat::Binary => {},
                    }
                }
            }
            Err(())
        }
    }
}

/// Distinct values have distinct names, so `parse` reads back what `name` wrote.
pub proof fn lemma_output_format_names_distinct(a: OutputFormat, b: OutputFormat)
    ensures
        a.spec_name() == b.spec_name() ==> a == b,
{
    reveal_strlit("ascii");
    reveal_strlit("binary");
    if a != b {
        assert(a.spec_name()[0] != b.spec_name()[0]);
    }
}

impl std::str::FromStr for OutputFormat {
    type Err = ();

    fn from_str(src: &str) -> (r: Result<OutputFormat, ()>)
        ensures
            r matches Ok(a) ==> src@ == a.spec_name(),
            r is Err ==> forall|a: OutputFormat| src@ != #[trigger] a.spec_name(),
    {
        OutputFormat::parse(src)
    }
}

/// The `-d` option: how transparency values are read.
#[derive(Clone, Copy, Debug, PartialEq, Eq, Structural)]
pub enum InvertTransparency {
    /// `invert`: transparency is inverted.
    Invert,
    /// `normal`: 0.0 is fully transparent, 1.0 fully opaque.
    Normal,
}

impl InvertTransparency {
    pub open spec fn spec_name(self) -> Seq<char> {
        match self {
            InvertTransparency::Invert => "invert"@,
            InvertTransparency::Normal => "normal"@,
        }
    }

    /// The option's value as written on the command line.
    pub fn name(&self) -> (r: &'static str)
        ensures
            r@ == self.spec_name(),
    {
        match self {
            InvertTransparency::Invert => "invert",
            InvertTransparency::Normal => "normal",
        }
    }

    /// The value whose name is `src`; an error when no value has that name.
    pub fn parse(src: &str) -> (r: Result<InvertTransparency, ()>)
        ensures
            r matches Ok(a) ==> src@ == a.spec_name(),
            r is Err ==> forall|a: InvertTransparency| src@ != #[trigger] a.spec_name(),
    {
        if same_text(src, "invert") {
            Ok(InvertTransparency::Invert)
        } else if same_text(src, "normal") {
            Ok(InvertTransparency::Normal)
        } else {
            proof {
                assert forall|a: InvertTransparency| src@ != #[trigger] a.spec_name() by {
                    match a {
                        InvertTransparency::Invert => {},
                        InvertTransparency::Normal => {},
                    }
                }
            }
            Err(())
        }
    }
}

/// Distinct values have distinct names, so `parse` reads back what `name` wrote.
pub proof fn lemma_invert_transparency_names_distinct(a: InvertTransparency, b: InvertTransparency)
    ensures
        a.spec_name() == b.spec_name() ==> a == b,
{
    reveal_strlit("invert");
    reveal_strlit("normal");
    if a != b {
        assert(a.spec_name()[0] != b.spec_name()[0]);
    }
}

impl std::str::FromStr for InvertTransparency {
    type Err = ();

    fn from_str(src: &str) -> (r: Result<InvertTransparency, ()>)
        ensures
            r matches Ok(a) ==> src@ == a.spec_name(),
            r is Err ==> forall|a: InvertTransparency| src@ != #[trigger] a.spec_name(),
    {
        InvertTransparency::parse(src)
    }
}

} // verus!
