use vstd::prelude::*;

verus! {

/// What every kind of thing in the world can tell about itself.
pub trait Object {
    /// The text of `description`.
    spec fn description_text(&self) -> Seq<char>;

    /// The text of `get_name`.
    spec fn name_text(&self) -> Seq<char>;

    /// The text of `complete_description`.
    spec fn complete_text(&self) -> Seq<char>;

    /// The description of the thing as seen from nearby.
    fn description(&self) -> (result: String)
        ensures
            result@ == self.description_text(),
    ;

    /// The name of the thing.
    fn get_name(&self) -> (result: String)
        ensures
            result@ == self.name_text(),
    ;

    /// Everything that can be learned of the thing.
    fn complete_description(&self) -> (result: String)
        ensures
            result@ == self.complete_text(),
    ;
}

} // verus!
