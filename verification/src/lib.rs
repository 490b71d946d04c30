use vstd::prelude::*;

pub mod bbox;
pub mod cluster;
pub mod cmap;
pub mod detect;
pub mod edges;
pub mod encoding;
pub mod fonts;
pub mod fx;
pub mod interp;
pub mod matrix;
pub mod mergecells;
pub mod objects;
pub mod ops;
pub mod output;
pub mod page;
pub mod readingorder;
pub mod search;
pub mod settings;
pub mod sort;
pub mod structure;
pub mod table;
pub mod textextract;
pub mod trusted;
pub mod words;

use vstd::string::StringExecFns;

verus! {

/// Errors surfaced by the extraction pipeline.
#[derive(Debug)]
pub enum Error {
    PdfParse(String),
    Font(String),
    ContentStream(String),
    Encoding(String),
    TableDetection(String),
    PageNotFound(usize),
    InvalidBBox(String),
}

impl Error {
    /// A readable description of the error.
    pub fn message(&self) -> (r: String)
        ensures
            r@.len() > 0,
    {
        let mut r: String;
        match self {
            Error::PdfParse(detail) => {
                r = String::from_str("document parsing error: ");
                r.append(detail.as_str());
            },
            Error::Font(detail) => {
                r = String::from_str("font error: ");
                r.append(detail.as_str());
            },
            Error::ContentStream(detail) => {
                r = String::from_str("content stream error: ");
                r.append(detail.as_str());
            },
            Error::Encoding(detail) => {
                r = String::from_str("encoding error: ");
                r.append(detail.as_str());
            },
            Error::TableDetection(detail) => {
                r = String::from_str("table detection error: ");
                r.append(detail.as_str());
            },
            Error::PageNotFound(_) => {
                r = String::from_str("page not found");
            },
            Error::InvalidBBox(detail) => {
                r = String::from_str("invalid bounding box: ");
                r.append(detail.as_str());
            },
        }
        proof {
            reveal_strlit("document parsing error: ");
            reveal_strlit("font error: ");
            reveal_strlit("content stream error: ");
            reveal_strlit("encoding error: ");
            reveal_strlit("table detection error: ");
            reveal_strlit("page not found");
            reveal_strlit("invalid bounding box: ");
        }
        r
    }
}

} // verus!
