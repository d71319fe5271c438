//! The item record: a unit of tracked work scoped to one project.

use vstd::prelude::*;

verus! {

/// Mathematical value of an item record: the assigned identifier together
/// with the three text attributes as character sequences.
pub ghost struct ItemView {
    pub id: u32,
    pub title: Seq<char>,
    pub description: Seq<char>,
    pub status: Seq<char>,
}

/// A unit of tracked work. The identifier is assigned by the store and is
/// unique within the item's project; the three text fields are free-form.
#[derive(Clone, Debug, PartialEq, Eq)]
pub struct ProjectItem {
    pub id: u32,
    pub title: String,
    pub description: String,
    pub status: String,
}

impl View for ProjectItem {
    type V = ItemView;

    open spec fn view(&self) -> ItemView {
        ItemView {
            id: self.id,
            title: self.title@,
            description: self.description@,
            status: self.status@,
        }
    }
}

} // verus!
