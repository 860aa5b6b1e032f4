use vstd::prelude::*;

verus! {

/// The run-wide set of URLs already emitted as entries, in the order in
/// which they were first seen.
pub struct UrlSet {
    urls: Vec<String>,
}

impl View for UrlSet {
    type V = Seq<Seq<char>>;

    closed spec fn view(&self) -> Seq<Seq<char>> {
        self.urls@.map_values(|u: String| u@)
    }
}

impl UrlSet {
    /// No URL is held twice.
    pub open spec fn wf(&self) -> bool {
        self@.no_duplicates()
    }

    /// An empty set.
    pub fn new() -> (r: UrlSet)
        ensures
            r@ == Seq::<Seq<char>>::empty(),
            r.wf(),
    {
        let r = UrlSet { urls: Vec::new() };
        assert(r@ =~= Seq::<Seq<char>>::empty());
        r
    }

    /// The number of URLs held.
    pub fn len(&self) -> (r: usize)
        ensures
            r == self@.len(),
    {
        self.urls.len()
    }

    /// Whether `url` has been seen.
    pub fn contains(&self, url: &String) -> (r: bool)
        ensures
            r == self@.contains(url@),
    {
        let mut i: usize = 0;
        while i < self.urls.len()
            invariant
                i <= self@.len(),
                forall|j: int| 0 <= j < i ==> self@[j] != url@,
            decreases self.urls.len() - i,
        {
            if self.urls[i] == *url {
                assert(self@[i as int] == url@);
                return true;
            }
            i += 1;
        }
        false
    }

    /// Adds `url` unless it is already held; returns whether it was added.
    pub fn insert(&mut self, url: String) -> (r: bool)
        requires
            old(self).wf(),
        ensures
            final(self).wf(),
            r == !old(self)@.contains(url@),
            r ==> final(self)@ == old(self)@.push(url@),
            !r ==> final(self)@ == old(self)@,
    {
        if self.contains(&url) {
            false
        } else {
            let ghost u = url@;
            self.urls.push(url);
            assert(self@ =~= old(self)@.push(u));
            true
        }
    }
}

} // verus!
