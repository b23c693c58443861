//! A type on its own: a single field placed where it is asked for.

use vstd::prelude::*;
use crate::datatype::{
    fits,
    placed_views,
    same_size,
    Align,
    H2Type,
    OffsetView,
    PartiallyResolvedType,
    Placed,
    ResolveOffset,
};
use crate::error::H2Error;

verus! {

/// One type, resolved without data.
#[derive(Debug)]
pub struct H2Simple {
    pub basic_type: Box<H2Type>,
}

/// The offset without data at `position`.
pub open spec fn static_at(position: nat) -> OffsetView {
    OffsetView { data: None, position }
}

impl H2Simple {
    pub fn new(basic_type: H2Type) -> (s: Self)
        ensures
            s.basic_type == basic_type,
    {
        Self { basic_type: Box::new(basic_type) }
    }

    /// The type placed at `starting_offset` under `field_name`, and the
    /// offset after it; the error of the size where it has none without
    /// data or the end does not fit.
    pub open spec fn resolve_spec(self, starting_offset: nat, field_name: Option<Seq<char>>) -> Result<
        (Seq<Placed>, nat),
        H2Error,
    > {
        match self.basic_type.size_spec(static_at(starting_offset)) {
            Err(e) => Err(e),
            Ok(size) => match fits(starting_offset + size) {
                Err(e) => Err(e),
                Ok(end) => Ok(
                    (
                        seq![
                            Placed {
                                start: starting_offset,
                                end,
                                name: field_name,
                                ty: *self.basic_type,
                            },
                        ],
                        end,
                    ),
                ),
            },
        }
    }

    pub fn resolve(&self, starting_offset: u64, field_name: Option<String>) -> (r: Result<
        (Vec<PartiallyResolvedType>, u64),
        H2Error,
    >)
        ensures
            match (
                r,
                self.resolve_spec(
                    starting_offset as nat,
                    match field_name {
                        Some(s) => Some(s@),
                        None => None,
                    },
                ),
            ) {
                (Ok(a), Ok(b)) => placed_views(a.0@) == b.0 && a.1 as nat == b.1,
                (Err(e), Err(f)) => e == f,
                _ => false,
            },
    {
        let offset = ResolveOffset::Static(starting_offset);
        let size = match self.basic_type.size(&offset, Align::No) {
            Ok(n) => n,
            Err(e) => {
                return Err(e);
            },
        };
        if size > u64::MAX - starting_offset {
            return Err(H2Error::SizeOverflow);
        }
        let end = starting_offset + size;
        let ghost name = match &field_name {
            Some(s) => Some(s@),
            None => None,
        };
        let mut v: Vec<PartiallyResolvedType> = Vec::new();
        v.push(
            PartiallyResolvedType {
                offset: starting_offset..end,
                field_name,
                field_type: (*self.basic_type).clone(),
            },
        );
        assert(placed_views(v@) =~= seq![
            Placed { start: starting_offset as nat, end: end as nat, name, ty: *self.basic_type },
        ]);
        Ok((v, end))
    }

    /// The size of the type without data.
    pub fn size(&self) -> (r: Result<u64, H2Error>)
        ensures
            same_size(r, self.basic_type.size_spec(static_at(0))),
    {
        self.basic_type.size(&ResolveOffset::Static(0), Align::No)
    }
}

} // verus!
