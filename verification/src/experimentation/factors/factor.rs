//! What every factor offers.
use vstd::prelude::*;

verus! {

/// A factor of the experiment. A value of the type is a level of the
/// factor.
pub trait Factor: Sized {
    /// The name of the factor.
    spec fn factor_text() -> Seq<char>;

    /// The name of the level.
    spec fn level_text(&self) -> Seq<char>;

    /// What the cell of a table says of the level.
    spec fn cell_text(&self) -> Seq<char>;

    /// The number of the heading under which the levels are asked for.
    fn query_header_index() -> usize;

    fn name_factor() -> (name: &'static str)
        ensures
            name@ == Self::factor_text(),
    ;

    fn definition_factor() -> &'static str;

    fn definition_level(&self) -> (definition: String)
        ensures
            definition@ == self.level_text(),
    ;

    fn name_level(&self) -> (name: String)
        ensures
            name@ == self.level_text(),
    ;

    fn to_cell_string(&self) -> (cell: String)
        ensures
            cell@ == self.cell_text(),
    ;
}

} // verus!
