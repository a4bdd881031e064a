use vstd::prelude::*;

verus! {

/// The mathematical content of a game's PGN metadata.  The text
/// fields are UTF-8 encoded bytes.
pub ghost struct PgnView {
    pub event: Seq<u8>,
    pub site: Seq<u8>,
    pub white: Seq<u8>,
    pub black: Seq<u8>,
    pub timestamp: int,
}

/// The metadata that accompanies a game's move record, as the PGN
/// convention knows it: event, site and player names as UTF-8 encoded
/// text, and the creation time as seconds since the Unix epoch.
/// Created when a match starts and never changed afterwards; the
/// game's result is derived from its status, not stored here.
#[derive(Debug)]
pub struct PGNMetadata {
    pub event: Vec<u8>,
    pub site: Vec<u8>,
    pub white: Vec<u8>,
    pub black: Vec<u8>,
    pub timestamp: u64,
}

impl View for PGNMetadata {
    type V = PgnView;

    open spec fn view(&self) -> PgnView {
        PgnView {
            event: self.event@,
            site: self.site@,
            white: self.white@,
            black: self.black@,
            timestamp: self.timestamp as int,
        }
    }
}

impl Clone for PGNMetadata {
    /// An exact copy: the clone holds the same metadata.
    fn clone(&self) -> (r: Self)
        ensures
            r@ == self@,
    {
        PGNMetadata {
            event: clone_bytes(&self.event),
            site: clone_bytes(&self.site),
            white: clone_bytes(&self.white),
            black: clone_bytes(&self.black),
            timestamp: self.timestamp,
        }
    }
}

/// An exact copy of a byte vector.
pub(crate) fn clone_bytes(v: &Vec<u8>) -> (r: Vec<u8>)
    ensures
        r@ == v@,
{
    let mut r: Vec<u8> = Vec::new();
    let mut i: usize = 0;
    while i < v.len()
        invariant
            i <= v@.len(),
            r@.len() == i,
            forall|j: int| 0 <= j < i ==> r@[j] == v@[j],
        decreases v@.len() - i,
    {
        r.push(v[i]);
        i = i + 1;
    }
    proof {
        assert(r@ =~= v@);
    }
    r
}

impl PGNMetadata {
    /// Metadata with the given creation time and empty text fields.
    pub fn from_timestamp(timestamp: u64) -> (r: PGNMetadata)
        ensures
            r@ == (PgnView {
                event: Seq::<u8>::empty(),
                site: Seq::<u8>::empty(),
                white: Seq::<u8>::empty(),
                black: Seq::<u8>::empty(),
                timestamp: timestamp as int,
            }),
    {
        let r = PGNMetadata {
            event: Vec::new(),
            site: Vec::new(),
            white: Vec::new(),
            black: Vec::new(),
            timestamp,
        };
        r
    }

    /// Metadata with the given creation time, event, site and player
    /// names.
    pub fn new(
        timestamp: u64,
        event: Vec<u8>,
        site: Vec<u8>,
        white: Vec<u8>,
        black: Vec<u8>,
    ) -> (r: PGNMetadata)
        ensures
            r@ == (PgnView {
                event: event@,
                site: site@,
                white: white@,
                black: black@,
                timestamp: timestamp as int,
            }),
    {
        PGNMetadata { event, site, white, black, timestamp }
    }

    /// The creation time, in seconds since the Unix epoch.
    pub fn get_timestamp(&self) -> (r: u64)
        ensures
            r == self@.timestamp,
    {
        self.timestamp
    }
}

} // verus!
