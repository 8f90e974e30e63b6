use vstd::prelude::*;

use crate::viewport::Viewport;

verus! {

/// A colour of the terminal's palette; the map only carries it to the
/// painter.
#[verifier::external_type_specification]
#[verifier::external_body]
pub struct ExColor(ratatui::style::Color);

/// Which of the loaded point sets to draw.
#[derive(Clone, Copy, Debug, PartialEq, Eq, Structural)]
pub enum WorldResolution {
    Low,
    Med,
    High,
}

/// The point sets of the map, one for each resolution, each an ordered
/// sequence of `(longitude, latitude)` pairs in fixed-point units.
pub struct Atlas {
    pub low: Vec<(i64, i64)>,
    pub med: Vec<(i64, i64)>,
    pub high: Vec<(i64, i64)>,
}

impl Atlas {
    /// The points of one resolution.
    pub open spec fn points(self, resolution: WorldResolution) -> Seq<(i64, i64)> {
        match resolution {
            WorldResolution::Low => self.low@,
            WorldResolution::Med => self.med@,
            WorldResolution::High => self.high@,
        }
    }
}

impl WorldResolution {
    /// The points that this resolution selects in an atlas.
    pub fn data(self, atlas: &Atlas) -> (r: &Vec<(i64, i64)>)
        ensures
            r@ == atlas.points(self),
    {
        match self {
            WorldResolution::Low => &atlas.low,
            WorldResolution::Med => &atlas.med,
            WorldResolution::High => &atlas.high,
        }
    }
}

/// The points of `points` that `viewport` shows, in their order.
pub open spec fn visible(viewport: Viewport, points: Seq<(i64, i64)>) -> Seq<(i64, i64)> {
    points.filter(|p: (i64, i64)| viewport.shows(p.0 as int, p.1 as int))
}

/// The map drawn in one colour at one resolution.
pub struct WorldMap {
    pub resolution: WorldResolution,
    pub color: ratatui::style::Color,
}

impl WorldMap {
    /// The points of the map to paint under `viewport`: every point of the
    /// selected resolution that lies in the viewport, boundary included, in
    /// the atlas's order.
    pub fn visible_points(&self, atlas: &Atlas, viewport: &Viewport) -> (r: Vec<(i64, i64)>)
        ensures
            r@ == visible(*viewport, atlas.points(self.resolution)),
    {
        let data = self.resolution.data(atlas);
        let mut r: Vec<(i64, i64)> = Vec::new();
        let mut i: usize = 0;
        while i < data.len()
            invariant
                i <= data@.len(),
                data@ == atlas.points(self.resolution),
                r@ == visible(*viewport, data@.subrange(0, i as int)),
            decreases data@.len() - i,
        {
            let (x, y) = data[i];
            proof {
                reveal(Seq::filter);
                assert(data@.subrange(0, i as int + 1).drop_last() =~= data@.subrange(0, i as int));
            }
            if viewport.contains(x, y) {
                r.push((x, y));
            }
            i = i + 1;
        }
        assert(data@.subrange(0, data@.len() as int) =~= data@);
        r
    }
}

} // verus!
