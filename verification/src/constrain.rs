//! Constrain: a renderable laid out as if the available width were at most a given
//! width.
use vstd::prelude::*;
use crate::Renderable;
use crate::console::{Console, ConsoleOptions, OptionsModel};
use crate::segment::SegView;
use crate::measure::{Measurement, min_nat};
use crate::segment::Segment;
use crate::strs::{push_str, usize_to_string, decimal_spec};

verus! {

/// A renderable rendered with the available width reduced to at most `width`.
pub struct Constrain {
    renderable: Box<dyn Renderable>,
    width: Option<usize>,
}

impl View for Constrain {
    type V = Option<usize>;

    /// The width limit.
    closed spec fn view(&self) -> Option<usize> {
        self.width
    }
}

/// The width limit in effect: the given one, else the available width.
pub open spec fn limit_of(width: Option<usize>, max_width: nat) -> nat {
    match width {
        Some(w) => w as nat,
        None => max_width,
    }
}

/// The measurement of a constrained renderable whose content measures `inner`, both
/// widths at most `limit`.
pub open spec fn constrain_measure_spec(inner: Measurement, limit: nat) -> Measurement {
    Measurement {
        minimum: min_nat(inner.minimum as nat, limit) as usize,
        maximum: min_nat(inner.maximum as nat, limit) as usize,
    }
}

impl Constrain {

    /// What the renderable inside renders on the options.
    pub closed spec fn content_rendered(&self, o: OptionsModel) -> Seq<SegView> {
        self.renderable.rendered(o)
    }

    /// How the renderable inside measures on the options.
    pub closed spec fn content_measured(&self, o: OptionsModel) -> Measurement {
        self.renderable.measured(o)
    }
    /// Constrain a renderable to a width, or not at all.
    pub fn new(renderable: Box<dyn Renderable>, width: Option<usize>) -> (r: Self)
        ensures
            r@ == width,
    {
        Constrain { renderable, width }
    }

    /// Constrain a renderable to 80 cells.
    pub fn with_default_width(renderable: Box<dyn Renderable>) -> (r: Self)
        ensures
            r@ == Some(80usize),
    {
        Constrain { renderable, width: Some(80) }
    }

    /// The constraint with another width limit.
    pub fn with_width(self, width: Option<usize>) -> (r: Self)
        ensures
            r@ == width,
    {
        Constrain { width, ..self }
    }

    /// The width limit.
    pub fn width(&self) -> (r: Option<usize>)
        ensures
            r == self@,
    {
        self.width
    }

    /// A description of the settings: `Constrain { width: .., .. }`.
    pub fn debug_string(&self) -> (r: String)
        ensures
            r@ == "Constrain { width: "@ + (match self@ {
                Some(w) => "Some("@ + decimal_spec(w as nat) + ")"@,
                None => "None"@,
            }) + ", .. }"@,
    {
        let mut s = crate::strs::owned("Constrain { width: ");
        match self.width {
            Some(w) => {
                push_str(&mut s, "Some(");
                push_str(&mut s, usize_to_string(w).as_str());
                push_str(&mut s, ")");
            },
            None => push_str(&mut s, "None"),
        }
        push_str(&mut s, ", .. }");
        s
    }
}

/// The options a constrained renderable renders in: the width brought down to the limit.
pub open spec fn constrained_options(width: Option<usize>, o: OptionsModel) -> OptionsModel {
    match width {
        None => o,
        Some(w) => {
            let cw: usize = if w <= o.max_width { w } else { o.max_width };
            OptionsModel { min_width: cw, max_width: cw, ..o }
        },
    }
}

/// The options a constrained renderable is measured in: the width set to the limit.
pub open spec fn measure_options(width: Option<usize>, o: OptionsModel) -> OptionsModel {
    match width {
        None => o,
        Some(w) => OptionsModel { min_width: w, max_width: w, ..o },
    }
}

impl Renderable for Constrain {
    open spec fn rendered(&self, o: OptionsModel) -> Seq<SegView> {
        self.content_rendered(constrained_options(self@, o))
    }

    open spec fn measured(&self, o: OptionsModel) -> Measurement {
        constrain_measure_spec(self.content_measured(measure_options(self@, o)), limit_of(self@, o.max_width as nat))
    }

    /// The content rendered with the available width at most the limit.
    fn render(&self, console: &Console, options: &ConsoleOptions) -> (r: Vec<Segment>) {
        match self.width {
            None => {
                let temp = Console::with_options(options.copy());
                self.renderable.render(&temp, options)
            },
            Some(width) => {
                let child_width = if width <= options.max_width { width } else { options.max_width };
                let child_options = options.update_width(child_width);
                let temp = Console::with_options(child_options.copy());
                self.renderable.render(&temp, &child_options)
            },
        }
    }

    fn measure(&self, console: &Console, options: &ConsoleOptions) -> (r: Measurement) {
        let opts = match self.width {
            Some(width) => options.update_width(width),
            None => options.copy(),
        };
        let temp = Console::with_options(opts.copy());
        let inner = self.renderable.measure(&temp, &opts);
        inner.with_maximum(opts.max_width)
    }
}

} // verus!
