// Inventory of a small lending library: a fixed catalog of books with copy counts,
// lending and taking back copies, selecting an entry by position or identifier, and
// deciding what a load from storage yields.
use vstd::prelude::*;

// Entries, the catalog and the seeded default catalog.
pub mod catalog;
// Lending and returning copies; which entries are on the shelf or lent out.
pub mod inventory;
// Options of the main menu.
pub mod menu;
// Picking an entry from a shown list by position or identifier.
pub mod selection;
// Reconciling what storage holds with the catalog a session works on.
pub mod store;
// Column widths of the catalog listing.
pub mod table;

verus! {

} // verus!
