use vstd::prelude::*;

verus! {

/// One line of the feed as a display layer shows it.
#[derive(Debug)]
pub struct PREntry {
    pub id: u64,
    pub title: String,
    pub age_str: String,
}

/// A displayable list of feed entries.
#[derive(Debug)]
pub struct PRList {
    pub entries: Vec<PREntry>,
}

impl Default for PRList {
    /// An empty list.
    fn default() -> (r: Self)
        ensures
            r.entries@.len() == 0,
    {
        PRList { entries: Vec::<PREntry>::new() }
    }
}

} // verus!
