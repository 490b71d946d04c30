use vstd::prelude::*;
use crate::matrix::Matrix;
use crate::fonts::FontDict;

verus! {

/// One item of a TJ array: a string to show or a position adjustment in
/// fixed-point thousandths of text space.
#[derive(Debug)]
pub enum TjItem {
    Text(Vec<u8>),
    Offset(i64),
}

/// An operand of a content-stream operator, with numbers in fixed-point
/// units.
#[derive(Debug)]
pub enum Arg {
    Num(i64),
    Name(Vec<u8>),
    Str(Vec<u8>),
    NumArr(Vec<i64>),
    TjArr(Vec<TjItem>),
    Other,
}

/// One content-stream operation: the operator's name and its operands.
#[derive(Debug)]
pub struct Op {
    pub name: Vec<u8>,
    pub args: Vec<Arg>,
}

/// The entries of an ExtGState dictionary that the interpreter applies.
#[derive(Debug)]
pub struct ExtGState {
    pub line_width: Option<i64>,
    pub line_cap: Option<i64>,
    pub line_join: Option<i64>,
    pub font: Option<(Vec<u8>, i64)>,
}

/// A form XObject: its placement matrix, its own resources if any, and
/// its decoded operations.
#[derive(Debug)]
pub struct FormXObject {
    pub matrix: Option<Matrix>,
    pub resources: Option<Box<Resources>>,
    pub ops: Vec<Op>,
}

/// The page resources the interpreter consults, with indirect references
/// already followed.
#[derive(Debug)]
pub struct Resources {
    pub fonts: Vec<(String, FontDict)>,
    pub ext_gstates: Vec<(Vec<u8>, ExtGState)>,
    pub forms: Vec<(Vec<u8>, FormXObject)>,
}

impl Resources {
    /// Empty resources: nothing to look up.
    pub fn empty() -> (r: Resources)
        ensures
            r.fonts@.len() == 0,
            r.ext_gstates@.len() == 0,
            r.forms@.len() == 0,
    {
        Resources { fonts: Vec::new(), ext_gstates: Vec::new(), forms: Vec::new() }
    }
}

} // verus!
