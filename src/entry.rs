use vstd::prelude::*;

verus! {

/// The abstract value of an entry: its description line and its URL line.
pub type EntryModel = (Seq<char>, Seq<char>);

/// One playlist entry: a metadata line and the stream URL that follows it.
#[derive(Debug, Clone)]
pub struct M3U8Entry {
    pub description: String,
    pub url: String,
}

impl View for M3U8Entry {
    type V = EntryModel;

    open spec fn view(&self) -> EntryModel {
        (self.description@, self.url@)
    }
}

/// The abstract values of a sequence of entries.
pub open spec fn entry_views(es: Seq<M3U8Entry>) -> Seq<EntryModel> {
    es.map_values(|e: M3U8Entry| e@)
}

} // verus!
