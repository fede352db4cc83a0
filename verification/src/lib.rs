//! A small creature-raising library: creatures with a kind, a level, a
//! gender and experience points; a collection that trains, breeds and sorts
//! them; and a plain-text rendering of the collection for display and for
//! saving to a file.

pub mod pokemon;
pub mod texte;
pub mod tri;
pub mod elevage;
