//! A source-code location captured from compiler output: a path with an
//! optional 1-based line and column, parsed from text such as
//! `src/lib.rs:450:7`.

use vstd::prelude::*;

use crate::bytes::{idx_of, idx_of_spec, parse_usize, parse_usize_spec, subvec};
use crate::error::{Error, ErrorKind};

verus! {

/// A source-code location: path, optional line, optional column.
#[derive(Clone, Debug, PartialEq, Eq, PartialOrd, Ord)]
pub struct Location {
    pub path: Vec<u8>,
    pub line: Option<usize>,
    pub column: Option<usize>,
}

/// Mathematical view of a [`Location`].
pub ghost struct LocationModel {
    pub path: Seq<u8>,
    pub line: Option<usize>,
    pub column: Option<usize>,
}

impl View for Location {
    type V = LocationModel;

    open spec fn view(&self) -> LocationModel {
        LocationModel { path: self.path@, line: self.line, column: self.column }
    }
}

/// What parsing `path[:line[:column]]` yields.  The text up to the first
/// colon is the path.  A second part that fails to parse as a number is
/// silently dropped; a third part that fails to parse is a parsing error.
/// Anything after a third colon is ignored.
pub open spec fn parse_location_spec(s: Seq<u8>) -> Result<LocationModel, ErrorKind> {
    let p1 = idx_of_spec(s, 58, 0);
    if p1 == s.len() {
        Ok(LocationModel { path: s, line: None, column: None })
    } else {
        let p2 = idx_of_spec(s, 58, p1 + 1);
        let line = parse_usize_spec(s.subrange(p1 + 1, p2));
        if p2 == s.len() {
            Ok(LocationModel { path: s.subrange(0, p1), line, column: None })
        } else {
            let p3 = idx_of_spec(s, 58, p2 + 1);
            match parse_usize_spec(s.subrange(p2 + 1, p3)) {
                Option::None => Err(ErrorKind::Parsing),
                Option::Some(c) => Ok(
                    LocationModel { path: s.subrange(0, p1), line, column: Some(c) },
                ),
            }
        }
    }
}

impl Location {
    /// Build a location from its parts.
    pub fn new(path: Vec<u8>, line: Option<usize>, column: Option<usize>) -> (r: Self)
        ensures
            r@ == (LocationModel { path: path@, line, column }),
    {
        Location { path, line, column }
    }

    /// The path part.
    pub fn path(&self) -> (r: &Vec<u8>)
        ensures
            r == &self.path,
    {
        &self.path
    }

    /// The path part, mutably.
    pub fn path_mut(&mut self) -> (r: &mut Vec<u8>)
        ensures
            *r == old(self).path,
            final(self).path == *final(r),
            final(self).line == old(self).line,
            final(self).column == old(self).column,
    {
        &mut self.path
    }

    /// The line part.
    pub fn line(&self) -> (r: Option<usize>)
        ensures
            r == self.line,
    {
        self.line
    }

    /// The line part, mutably.
    pub fn line_mut(&mut self) -> (r: &mut Option<usize>)
        ensures
            *r == old(self).line,
            final(self).line == *final(r),
            final(self).path == old(self).path,
            final(self).column == old(self).column,
    {
        &mut self.line
    }

    /// The column part.
    pub fn column(&self) -> (r: Option<usize>)
        ensures
            r == self.column,
    {
        self.column
    }

    /// The column part, mutably.
    pub fn column_mut(&mut self) -> (r: &mut Option<usize>)
        ensures
            *r == old(self).column,
            final(self).column == *final(r),
            final(self).path == old(self).path,
            final(self).line == old(self).line,
    {
        &mut self.column
    }

    /// Parse `path[:line[:column]]` as [`parse_location_spec`] describes.
    pub fn parse(s: &Vec<u8>) -> (r: Result<Location, Error>)
        ensures
            match r {
                Ok(loc) => parse_location_spec(s@) == Ok::<LocationModel, ErrorKind>(loc@),
                Err(e) => parse_location_spec(s@) == Err::<LocationModel, ErrorKind>(e.kind)
                    && e.kind == ErrorKind::Parsing,
            },
    {
        let n = s.len();
        let p1 = idx_of(s, 58, 0);
        proof {
            crate::bytes::lemma_idx_of(s@, 58, 0);
        }
        if p1 == n {
            let path = subvec(s, 0, n);
            proof {
                assert(path@ =~= s@);
            }
            return Ok(Location { path, line: None, column: None });
        }
        let path = subvec(s, 0, p1);
        let p2 = idx_of(s, 58, p1 + 1);
        proof {
            crate::bytes::lemma_idx_of(s@, 58, p1 + 1);
        }
        let line_part = subvec(s, p1 + 1, p2);
        let line = parse_usize(&line_part);
        if p2 == n {
            return Ok(Location { path, line, column: None });
        }
        let p3 = idx_of(s, 58, p2 + 1);
        proof {
            crate::bytes::lemma_idx_of(s@, 58, p2 + 1);
        }
        let col_part = subvec(s, p2 + 1, p3);
        match parse_usize(&col_part) {
            Option::None => Err(
                Error {
                    kind: ErrorKind::Parsing,
                    message: None,
                    cause: None,
                    location: None,
                },
            ),
            Option::Some(c) => Ok(Location { path, line, column: Some(c) }),
        }
    }
}

} // verus!
