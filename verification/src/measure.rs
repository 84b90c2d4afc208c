//! Measurement: the minimum and maximum widths that a renderable needs.
use vstd::prelude::*;
use crate::cells::{cw, char_width};
use crate::segment::{Segment, SegView, segs_view, segs_text};
use crate::Renderable;
use crate::console::{Console, ConsoleOptions, OptionsModel};
use crate::strs::{is_white_space, char_is_whitespace, str_chars};

verus! {

broadcast use vstd::string::group_string_axioms;

/// The minimum and maximum width requirements of a renderable.
#[derive(Debug, Clone, Copy, PartialEq, Eq, Structural)]
pub struct Measurement {
    /// Minimum width required (content won't fit in less).
    pub minimum: usize,
    /// Maximum width the content would use if given unlimited space.
    pub maximum: usize,
}

impl Default for Measurement {
    fn default() -> (r: Self)
        ensures
            r == (Measurement { minimum: 0, maximum: 0 }),
    {
        Measurement { minimum: 0, maximum: 0 }
    }
}

/// The smaller of two widths.
pub open spec fn min_nat(a: nat, b: nat) -> nat {
    if a <= b { a } else { b }
}

/// The larger of two widths.
pub open spec fn max_nat(a: nat, b: nat) -> nat {
    if a >= b { a } else { b }
}

/// A sum of widths, held at `usize::MAX` when it would not fit.
pub open spec fn sat_add(a: nat, b: nat) -> nat {
    if a + b > usize::MAX { usize::MAX as nat } else { a + b }
}

/// State of the scan that measures text: widest line so far, width of the current
/// line, widest word so far, width of the current word.
pub open spec fn scan_text(s: Seq<char>) -> (nat, nat, nat, nat)
    decreases s.len(),
{
    if s.len() == 0 {
        (0, 0, 0, 0)
    } else {
        let (ml, l, mw, w) = scan_text(s.drop_last());
        let c = s.last();
        if c == '\n' {
            (max_nat(ml, l), 0, max_nat(mw, w), 0)
        } else if is_white_space(c) {
            (ml, sat_add(l, cw(c)), max_nat(mw, w), 0)
        } else {
            (ml, sat_add(l, cw(c)), mw, sat_add(w, cw(c)))
        }
    }
}

/// The measurement of text: the widest word is the minimum, the widest line the maximum.
pub open spec fn measure_text(s: Seq<char>) -> Measurement {
    let (ml, l, mw, w) = scan_text(s);
    Measurement { minimum: max_nat(mw, w) as usize, maximum: max_nat(ml, l) as usize }
}

proof fn lemma_scan_bounded(s: Seq<char>)
    ensures
        scan_text(s).0 <= usize::MAX,
        scan_text(s).1 <= usize::MAX,
        scan_text(s).2 <= usize::MAX,
        scan_text(s).3 <= usize::MAX,
    decreases s.len(),
{
    if s.len() > 0 {
        lemma_scan_bounded(s.drop_last());
    }
}

/// The measurement of a list of measurements: the largest minimum and the largest maximum.
pub open spec fn union_all(ms: Seq<Measurement>) -> Measurement
    decreases ms.len(),
{
    if ms.len() == 0 {
        Measurement { minimum: 0, maximum: 0 }
    } else {
        let m = union_all(ms.drop_last());
        let x = ms.last();
        Measurement {
            minimum: if x.minimum >= m.minimum { x.minimum } else { m.minimum },
            maximum: if x.maximum >= m.maximum { x.maximum } else { m.maximum },
        }
    }
}

impl Measurement {
    /// Create a new measurement.
    pub fn new(minimum: usize, maximum: usize) -> (r: Self)
        ensures
            r.minimum == minimum,
            r.maximum == maximum,
    {
        Measurement { minimum, maximum }
    }

    /// Create a measurement with both min and max set to the same value.
    pub fn exact(width: usize) -> (r: Self)
        ensures
            r.minimum == width,
            r.maximum == width,
    {
        Measurement { minimum: width, maximum: width }
    }

    /// The span (difference between max and min), zero when the minimum is larger.
    pub fn span(&self) -> (r: usize)
        ensures
            r == (if self.maximum >= self.minimum { self.maximum - self.minimum } else { 0 }),
    {
        if self.maximum >= self.minimum {
            self.maximum - self.minimum
        } else {
            0
        }
    }

    /// The measurement with its minimum brought down to at most its maximum.
    pub fn normalize(&self) -> (r: Self)
        ensures
            r.minimum == min_nat(self.minimum as nat, self.maximum as nat),
            r.maximum == self.maximum,
            r.minimum <= r.maximum,
    {
        let minimum = if self.minimum <= self.maximum { self.minimum } else { self.maximum };
        Measurement { minimum, maximum: self.maximum }
    }

    /// A measurement where both widths are at most `width`.
    pub fn with_maximum(&self, width: usize) -> (r: Self)
        ensures
            r.minimum == min_nat(self.minimum as nat, width as nat),
            r.maximum == min_nat(self.maximum as nat, width as nat),
            r.minimum <= width,
            r.maximum <= width,
    {
        Measurement {
            minimum: if self.minimum <= width { self.minimum } else { width },
            maximum: if self.maximum <= width { self.maximum } else { width },
        }
    }

    /// A measurement where both widths are at least `width`.
    pub fn with_minimum(&self, width: usize) -> (r: Self)
        ensures
            r.minimum == max_nat(self.minimum as nat, width as nat),
            r.maximum == max_nat(self.maximum as nat, width as nat),
            r.minimum >= width,
            r.maximum >= width,
    {
        Measurement {
            minimum: if self.minimum >= width { self.minimum } else { width },
            maximum: if self.maximum >= width { self.maximum } else { width },
        }
    }

    /// The measurement raised to `min_width` and then brought down to `max_width`,
    /// where those are given.
    pub fn clamp_bounds(&self, min_width: Option<usize>, max_width: Option<usize>) -> (r: Self)
        ensures
            ({
                let a = match min_width {
                    Some(w) => Measurement {
                        minimum: max_nat(self.minimum as nat, w as nat) as usize,
                        maximum: max_nat(self.maximum as nat, w as nat) as usize,
                    },
                    None => *self,
                };
                r == match max_width {
                    Some(w) => Measurement {
                        minimum: min_nat(a.minimum as nat, w as nat) as usize,
                        maximum: min_nat(a.maximum as nat, w as nat) as usize,
                    },
                    None => a,
                }
            }),
    {
        let mut result = *self;
        if let Some(min_w) = min_width {
            result = result.with_minimum(min_w);
        }
        if let Some(max_w) = max_width {
            result = result.with_maximum(max_w);
        }
        result
    }

    /// `width` brought within the bounds of the measurement.
    pub fn clamp_width(&self, width: usize) -> (r: usize)
        requires
            self.minimum <= self.maximum,
        ensures
            self.minimum <= r <= self.maximum,
            self.minimum <= width <= self.maximum ==> r == width,
            width < self.minimum ==> r == self.minimum,
            width > self.maximum ==> r == self.maximum,
    {
        if width < self.minimum {
            self.minimum
        } else if width > self.maximum {
            self.maximum
        } else {
            width
        }
    }

    /// Combine with another measurement, taking the max of mins and maxes.
    pub fn union(&self, other: &Measurement) -> (r: Self)
        ensures
            r.minimum == max_nat(self.minimum as nat, other.minimum as nat),
            r.maximum == max_nat(self.maximum as nat, other.maximum as nat),
    {
        Measurement {
            minimum: if self.minimum >= other.minimum { self.minimum } else { other.minimum },
            maximum: if self.maximum >= other.maximum { self.maximum } else { other.maximum },
        }
    }

    /// The measurement of rendered segments: the widest word is the minimum, the widest
    /// line the maximum.
    pub fn from_segments(segments: &Vec<Segment>) -> (r: Self)
        ensures
            r == measure_text(segs_text(segs_view(segments@))),
    {
        let mut ml: usize = 0;
        let mut l: usize = 0;
        let mut mw: usize = 0;
        let mut w: usize = 0;
        let ghost mut seen: Seq<char> = Seq::empty();
        let mut i: usize = 0;
        while i < segments.len()
            invariant
                i <= segments.len(),
                seen == segs_text(segs_view(segments@.take(i as int))),
                scan_text(seen) == (ml as nat, l as nat, mw as nat, w as nat),
            decreases segments.len() - i,
        {
            let chars = str_chars(segments[i].text.as_str());
            let ghost before = seen;
            let mut k: usize = 0;
            while k < chars.len()
                invariant
                    k <= chars.len(),
                    seen == before + chars@.take(k as int),
                    scan_text(seen) == (ml as nat, l as nat, mw as nat, w as nat),
                decreases chars.len() - k,
            {
                let c = chars[k];
                let cwid = char_width(c);
                proof {
                    assert((before + chars@.take(k + 1)).drop_last() =~= before + chars@.take(k as int));
                    assert((before + chars@.take(k + 1)).last() == c);
                    lemma_scan_bounded(seen);
                }
                if c == '\n' {
                    if l > ml {
                        ml = l;
                    }
                    if w > mw {
                        mw = w;
                    }
                    l = 0;
                    w = 0;
                } else if char_is_whitespace(c) {
                    l = l.saturating_add(cwid);
                    if w > mw {
                        mw = w;
                    }
                    w = 0;
                } else {
                    l = l.saturating_add(cwid);
                    w = w.saturating_add(cwid);
                }
                proof {
                    seen = before + chars@.take(k + 1);
                }
                k = k + 1;
            }
            proof {
                assert(chars@.take(k as int) =~= chars@);
                assert(segments@.take(i + 1).drop_last() =~= segments@.take(i as int));
                assert(segs_view(segments@.take(i + 1)).drop_last() =~= segs_view(segments@.take(i as int)));
            }
            i = i + 1;
        }
        proof {
            assert(segments@.take(i as int) =~= segments@);
        }
        let minimum = if w > mw { w } else { mw };
        let maximum = if l > ml { l } else { ml };
        Measurement { minimum, maximum }
    }
}

/// The measurement that fits all of the given measurements: the largest minimum and the
/// largest maximum (zero for none).
pub fn union_measurements(ms: &Vec<Measurement>) -> (r: Measurement)
    ensures
        r == union_all(ms@),
{
    let mut acc = Measurement { minimum: 0, maximum: 0 };
    let mut i: usize = 0;
    while i < ms.len()
        invariant
            i <= ms.len(),
            acc == union_all(ms@.take(i as int)),
        decreases ms.len() - i,
    {
        assert(ms@.take(i + 1).drop_last() =~= ms@.take(i as int));
        let x = ms[i];
        acc = Measurement {
            minimum: if x.minimum >= acc.minimum { x.minimum } else { acc.minimum },
            maximum: if x.maximum >= acc.maximum { x.maximum } else { acc.maximum },
        };
        i = i + 1;
    }
    assert(ms@.take(i as int) =~= ms@);
    acc
}

/// The measurement that fits all of the given renderables on the options: the
/// largest minimum and the largest maximum of their measurements (zero for none).
pub fn measure_renderables(console: &Console, options: &ConsoleOptions, renderables: &[&dyn Renderable]) -> (r: Measurement)
    ensures
        renderables@.len() == 0 ==> r == (Measurement { minimum: 0, maximum: 0 }),
        r == union_all(measured_all(renderables@, options@)),
{
    let mut ms: Vec<Measurement> = Vec::new();
    let mut i: usize = 0;
    while i < renderables.len()
        invariant
            i <= renderables@.len(),
            ms@ =~= measured_all(renderables@, options@).take(i as int),
        decreases renderables@.len() - i,
    {
        let m = renderables[i].measure(console, options);
        ms.push(m);
        assert(measured_all(renderables@, options@).take(i + 1) =~= measured_all(renderables@, options@).take(i as int).push(m));
        i = i + 1;
    }
    assert(measured_all(renderables@, options@).take(i as int) =~= measured_all(renderables@, options@));
    let r = union_measurements(&ms);
    r
}

/// How each of the renderables measures on the options, in order.
pub open spec fn measured_all(renderables: Seq<&dyn Renderable>, o: OptionsModel) -> Seq<Measurement> {
    Seq::new(renderables.len(), |i: int| renderables[i].measured(o))
}

} // verus!
