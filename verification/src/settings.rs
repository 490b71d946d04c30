use vstd::prelude::*;
use crate::fx::SCALE;

verus! {

/// Strategy for finding table edges on one axis.
#[derive(Debug, Clone, Copy, PartialEq, Eq, Structural)]
pub enum Strategy {
    /// Use drawn lines and rectangle sides.
    Lines,
    /// Use only unbroken lines.
    LinesStrict,
    /// Infer boundaries from word alignment.
    Text,
    /// Use caller-provided coordinates.
    Explicit,
}

impl Default for Strategy {
    fn default() -> (r: Self)
        ensures
            r == Strategy::Lines,
    {
        Strategy::Lines
    }
}

/// Configuration for table detection, in fixed-point units.
#[derive(Debug, Clone)]
pub struct TableSettings {
    pub vertical_strategy: Strategy,
    pub horizontal_strategy: Strategy,
    /// How close edges must be to snap together.
    pub snap_tolerance: i64,
    pub snap_x_tolerance: Option<i64>,
    pub snap_y_tolerance: Option<i64>,
    /// How close collinear edges must be to join.
    pub join_tolerance: i64,
    pub join_x_tolerance: Option<i64>,
    pub join_y_tolerance: Option<i64>,
    /// Minimum edge length to keep.
    pub edge_min_length: i64,
    /// Minimum cluster sizes for text-inferred edges.
    pub min_words_vertical: usize,
    pub min_words_horizontal: usize,
    /// Corner-match tolerance.
    pub intersection_tolerance: i64,
    pub intersection_x_tolerance: Option<i64>,
    pub intersection_y_tolerance: Option<i64>,
    /// Character-cluster tolerance for cell text.
    pub text_tolerance: i64,
    pub text_x_tolerance: Option<i64>,
    pub text_y_tolerance: Option<i64>,
    /// Coordinates for the explicit strategy.
    pub explicit_vertical_lines: Vec<i64>,
    pub explicit_horizontal_lines: Vec<i64>,
}

impl Default for TableSettings {
    /// The defaults: line strategies, 3 pt tolerances, 3-word vertical and
    /// 1-word horizontal text clusters.
    fn default() -> (r: Self)
        ensures
            r.vertical_strategy == Strategy::Lines,
            r.horizontal_strategy == Strategy::Lines,
            r.snap_tolerance == 3 * SCALE,
            r.snap_x_tolerance is None && r.snap_y_tolerance is None,
            r.join_tolerance == 3 * SCALE,
            r.join_x_tolerance is None && r.join_y_tolerance is None,
            r.edge_min_length == 3 * SCALE,
            r.min_words_vertical == 3,
            r.min_words_horizontal == 1,
            r.intersection_tolerance == 3 * SCALE,
            r.intersection_x_tolerance is None && r.intersection_y_tolerance is None,
            r.text_tolerance == 3 * SCALE,
            r.text_x_tolerance is None && r.text_y_tolerance is None,
            r.explicit_vertical_lines@.len() == 0,
            r.explicit_horizontal_lines@.len() == 0,
    {
        TableSettings {
            vertical_strategy: Strategy::Lines,
            horizontal_strategy: Strategy::Lines,
            snap_tolerance: 3 * SCALE,
            snap_x_tolerance: None,
            snap_y_tolerance: None,
            join_tolerance: 3 * SCALE,
            join_x_tolerance: None,
            join_y_tolerance: None,
            edge_min_length: 3 * SCALE,
            min_words_vertical: 3,
            min_words_horizontal: 1,
            intersection_tolerance: 3 * SCALE,
            intersection_x_tolerance: None,
            intersection_y_tolerance: None,
            text_tolerance: 3 * SCALE,
            text_x_tolerance: None,
            text_y_tolerance: None,
            explicit_vertical_lines: Vec::new(),
            explicit_horizontal_lines: Vec::new(),
        }
    }
}

impl TableSettings {
    pub open spec fn spec_snap_x(self) -> i64 {
        match self.snap_x_tolerance {
            Some(v) => v,
            None => self.snap_tolerance,
        }
    }

    pub fn snap_x(&self) -> (r: i64)
        ensures
            r == self.spec_snap_x(),
    {
        match self.snap_x_tolerance {
            Some(v) => v,
            None => self.snap_tolerance,
        }
    }

    pub open spec fn spec_snap_y(self) -> i64 {
        match self.snap_y_tolerance {
            Some(v) => v,
            None => self.snap_tolerance,
        }
    }

    pub fn snap_y(&self) -> (r: i64)
        ensures
            r == self.spec_snap_y(),
    {
        match self.snap_y_tolerance {
            Some(v) => v,
            None => self.snap_tolerance,
        }
    }

    pub open spec fn spec_join_x(self) -> i64 {
        match self.join_x_tolerance {
            Some(v) => v,
            None => self.join_tolerance,
        }
    }

    pub fn join_x(&self) -> (r: i64)
        ensures
            r == self.spec_join_x(),
    {
        match self.join_x_tolerance {
            Some(v) => v,
            None => self.join_tolerance,
        }
    }

    pub open spec fn spec_join_y(self) -> i64 {
        match self.join_y_tolerance {
            Some(v) => v,
            None => self.join_tolerance,
        }
    }

    pub fn join_y(&self) -> (r: i64)
        ensures
            r == self.spec_join_y(),
    {
        match self.join_y_tolerance {
            Some(v) => v,
            None => self.join_tolerance,
        }
    }

    pub open spec fn spec_intersection_x(self) -> i64 {
        match self.intersection_x_tolerance {
            Some(v) => v,
            None => self.intersection_tolerance,
        }
    }

    pub fn intersection_x(&self) -> (r: i64)
        ensures
            r == self.spec_intersection_x(),
    {
        match self.intersection_x_tolerance {
            Some(v) => v,
            None => self.intersection_tolerance,
        }
    }

    pub open spec fn spec_intersection_y(self) -> i64 {
        match self.intersection_y_tolerance {
            Some(v) => v,
            None => self.intersection_tolerance,
        }
    }

    pub fn intersection_y(&self) -> (r: i64)
        ensures
            r == self.spec_intersection_y(),
    {
        match self.intersection_y_tolerance {
            Some(v) => v,
            None => self.intersection_tolerance,
        }
    }

    pub open spec fn spec_text_x(self) -> i64 {
        match self.text_x_tolerance {
            Some(v) => v,
            None => self.text_tolerance,
        }
    }

    pub fn text_x(&self) -> (r: i64)
        ensures
            r == self.spec_text_x(),
    {
        match self.text_x_tolerance {
            Some(v) => v,
            None => self.text_tolerance,
        }
    }

    pub open spec fn spec_text_y(self) -> i64 {
        match self.text_y_tolerance {
            Some(v) => v,
            None => self.text_tolerance,
        }
    }

    pub fn text_y(&self) -> (r: i64)
        ensures
            r == self.spec_text_y(),
    {
        match self.text_y_tolerance {
            Some(v) => v,
            None => self.text_tolerance,
        }
    }
}

} // verus!
