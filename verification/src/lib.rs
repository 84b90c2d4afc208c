//! Rich text and formatting for the terminal.
use vstd::prelude::*;

pub mod strs;
pub mod cells;
pub mod error;
pub mod color;
pub mod boxes;
pub mod box_chars;
pub mod style;
pub mod segment;
pub mod theme;
pub mod measure;
pub mod sgr;
pub mod hyperlink;
pub mod console;
pub mod text;
pub mod wrap;
pub mod loop_helpers;
pub mod control;
pub mod align;
pub mod markup;
pub mod highlighter;
pub mod ansi;
pub mod padding;
pub mod constrain;
pub mod group;
pub mod json;
pub mod live;
pub mod live_render;
pub mod export_format;
pub mod columns;
pub mod layout;
pub mod file_proxy;
pub mod markdown;
pub mod md_render;
pub mod filesize;
pub mod pager;
pub mod bar;

use crate::console::{Console, ConsoleOptions};
use crate::measure::Measurement;
use crate::segment::Segment;

verus! {

/// A type that can be rendered to the console.
pub trait Renderable {
    /// What rendering gives on the given options, as segment values.
    spec fn rendered(&self, o: crate::console::OptionsModel) -> Seq<crate::segment::SegView>;

    /// What measuring gives on the given options.
    spec fn measured(&self, o: crate::console::OptionsModel) -> Measurement;

    /// Render this object to a sequence of segments.
    fn render(&self, console: &Console, options: &ConsoleOptions) -> (r: Vec<Segment>)
        ensures
            crate::segment::segs_view(r@) == self.rendered(options@);

    /// Measure the minimum and maximum width requirements.
    fn measure(&self, console: &Console, options: &ConsoleOptions) -> (r: Measurement)
        ensures
            r == self.measured(options@);
}

/// The measurement of rendered segments: their widest line, and the widest word.
pub open spec fn measured_segments(segs: Seq<crate::segment::SegView>) -> Measurement {
    crate::measure::measure_text(crate::segment::segs_text(segs))
}

impl Renderable for String {
    open spec fn rendered(&self, o: crate::console::OptionsModel) -> Seq<crate::segment::SegView> {
        seq![(self@, None::<crate::style::Style>, None::<crate::segment::ControlType>)]
    }

    open spec fn measured(&self, o: crate::console::OptionsModel) -> Measurement {
        measured_segments(self.rendered(o))
    }

    fn render(&self, console: &Console, options: &ConsoleOptions) -> (r: Vec<Segment>) {
        let mut v: Vec<Segment> = Vec::new();
        v.push(Segment::from_string(self.clone(), None));
        assert(crate::segment::segs_view(v@) =~= seq![(self@, None::<crate::style::Style>, None::<crate::segment::ControlType>)]);
        v
    }

    fn measure(&self, console: &Console, options: &ConsoleOptions) -> (r: Measurement) {
        let segments = self.render(console, options);
        Measurement::from_segments(&segments)
    }
}

/// A type that can be converted to a renderable.
pub trait RichCast {
    /// The renderable type this converts to.
    type Output: Renderable;

    /// Convert to a renderable type.
    fn rich(&self) -> Self::Output;
}

} // verus!
