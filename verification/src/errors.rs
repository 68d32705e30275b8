//! The append-only log of recoverable failures gathered over one crawl
//! pass. The orchestrator reads it at pass end to decide whether to notify
//! an operator.

use vstd::prelude::*;

verus! {

/// Append-only sequence of human-readable failure descriptions.
pub struct ErrorLog {
    entries: Vec<String>,
}

impl View for ErrorLog {
    type V = Seq<Seq<char>>;

    closed spec fn view(&self) -> Seq<Seq<char>> {
        Seq::new(self.entries@.len(), |i: int| self.entries@[i]@)
    }
}

impl ErrorLog {
    /// An empty log.
    pub fn new() -> (e: ErrorLog)
        ensures
            e@ == Seq::<Seq<char>>::empty(),
    {
        let e = ErrorLog { entries: Vec::new() };
        proof {
            assert(e@ =~= Seq::<Seq<char>>::empty());
        }
        e
    }

    /// Appends one entry: the description `what` followed by the failing
    /// `address` and a line break.
    pub fn record(&mut self, what: &str, address: &str)
        ensures
            final(self)@ == old(self)@.push(what@ + address@ + "\n"@),
    {
        let mut m = String::new();
        m.append(what);
        m.append(address);
        m.append("\n");
        let ghost pre = self@;
        self.entries.push(m);
        proof {
            assert(self@ =~= pre.push(what@ + address@ + "\n"@));
        }
    }

    /// How many failures were recorded.
    pub fn len(&self) -> (n: usize)
        ensures
            n == self@.len(),
    {
        self.entries.len()
    }

    /// Whether nothing failed so far.
    pub fn is_empty(&self) -> (r: bool)
        ensures
            r == (self@.len() == 0),
    {
        self.entries.len() == 0
    }

    /// The entry at position `i`.
    pub fn get(&self, i: usize) -> (s: &String)
        requires
            i < self@.len(),
        ensures
            s@ == self@[i as int],
    {
        &self.entries[i]
    }
}

} // verus!
