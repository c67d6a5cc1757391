//! What the operations do, stated of their calls: each law relates what went
//! into a call to what came out of it, in plain numbers, names and texts.

pub mod charts;
pub mod drawing;
pub mod feeding;
pub mod history;
pub mod placing;
pub mod polling;
pub mod reading;
pub mod reporting;
pub mod scraping;
pub mod serving;
pub mod spelling;
pub mod writing;
