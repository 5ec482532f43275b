//! Finding the slot through which an image calls a function of another module.
//!
//! The image lies in memory that may be unreadable in places, so the search asks for one piece
//! at a time.
use crate::text::same_bytes;
use vstd::prelude::*;

verus! {

/// How many functions of one module are looked at.
pub const MAX_ENTRIES: u32 = 65536;
/// How long a name may be.
pub const NAME_LIMIT: usize = 256;
/// Where an image can lie in the memory of a process.
pub const MAX_BASE: u64 = 0x7FFF_FFFF_FFFF;

/// What is read of an import descriptor: where the names lie, whose functions they are, and
/// where the slots lie.
#[derive(Clone, Copy, Debug, PartialEq, Eq, Structural)]
pub struct Descriptor {
    pub names: u32,
    pub module: u32,
    pub thunk: u32,
}

/// What the search needs next, by address.
#[derive(Clone, Copy, Debug, PartialEq, Eq, Structural)]
pub enum Query {
    /// A descriptor of twenty bytes.
    Descriptor(u64),
    /// The eight bytes at `name`, if those at `slot` are readable too.
    Entry { name: u64, slot: u64 },
    /// A string of less than `NAME_LIMIT` bytes.
    Name(u64),
    /// Nothing: this is the slot, if there is one.
    Done(Option<u64>),
}

/// What was read; `None` where the memory is not readable.
pub enum Reply {
    Descriptor(Option<Descriptor>),
    Entry(Option<u64>),
    Name(Option<Vec<u8>>),
}

/// Where the search is.
#[derive(Clone, Copy, Debug, PartialEq, Eq, Structural)]
pub enum At {
    Descriptor,
    Entry,
    Name(u64),
    Done(Option<u64>),
}

/// A search for one function.
pub struct ImportSearch {
    pub base: u64,
    pub rva: u32,
    pub size: u32,
    pub wanted: Vec<u8>,
    pub at: At,
    pub offset: u64,
    pub names: u32,
    pub thunk: u32,
    pub index: u32,
}

#[verifier::ext_equal]
pub struct Progress {
    pub base: u64,
    pub rva: u32,
    pub size: u32,
    pub wanted: Seq<u8>,
    pub at: At,
    pub offset: u64,
    pub names: u32,
    pub thunk: u32,
    pub index: u32,
}

impl View for ImportSearch {
    type V = Progress;

    open spec fn view(&self) -> Progress {
        Progress {
            base: self.base,
            rva: self.rva,
            size: self.size,
            wanted: self.wanted@,
            at: self.at,
            offset: self.offset,
            names: self.names,
            thunk: self.thunk,
            index: self.index,
        }
    }
}

impl Progress {
    pub open spec fn wf(self) -> bool {
        &&& self.base <= MAX_BASE
        &&& self.at is Descriptor || self.at is Entry || self.at is Name ==> self.offset < self.size
        &&& self.at is Entry || self.at is Name ==> self.index < MAX_ENTRIES
        &&& match self.at {
            At::Name(entry) => 0 < entry < 0x8000_0000_0000_0000,
            _ => true,
        }
    }

    /// The slot of the function at the current index.
    pub open spec fn slot(self) -> int {
        self.base + self.thunk + self.index * 8
    }

    pub open spec fn query(self) -> Query {
        match self.at {
            At::Descriptor => Query::Descriptor((self.base + self.rva + self.offset) as u64),
            At::Entry => Query::Entry {
                name: (self.base + self.names + self.index * 8) as u64,
                slot: self.slot() as u64,
            },
            At::Name(entry) => Query::Name((self.base + entry + 2) as u64),
            At::Done(result) => Query::Done(result),
        }
    }

    pub open spec fn next_descriptor(self) -> Progress {
        let offset = (self.offset + 20) as u64;
        Progress {
            offset,
            at: if offset < self.size {
                At::Descriptor
            } else {
                At::Done(None)
            },
            ..self
        }
    }

    pub open spec fn next_entry(self) -> Progress {
        if self.index + 1 < MAX_ENTRIES {
            Progress { index: (self.index + 1) as u32, at: At::Entry, ..self }
        } else {
            self.next_descriptor()
        }
    }

    /// Where a reply leads. The list of modules ends at an unreadable or empty descriptor, that
    /// of a module's functions at an unreadable or empty entry; functions without a name are
    /// passed over.
    pub open spec fn after(self, reply: Reply) -> Progress {
        match (self.at, reply) {
            (At::Descriptor, Reply::Descriptor(found)) => match found {
                Some(d) => if d.module == 0 {
                    Progress { at: At::Done(None), ..self }
                } else if d.names == 0 || d.thunk == 0 {
                    self.next_descriptor()
                } else {
                    Progress {
                        names: d.names,
                        thunk: d.thunk,
                        index: 0,
                        at: At::Entry,
                        ..self
                    }
                },
                None => Progress { at: At::Done(None), ..self },
            },
            (At::Entry, Reply::Entry(found)) => match found {
                Some(entry) => if entry == 0 {
                    self.next_descriptor()
                } else if entry >= 0x8000_0000_0000_0000 {
                    self.next_entry()
                } else {
                    Progress { at: At::Name(entry), ..self }
                },
                None => self.next_descriptor(),
            },
            (At::Name(_), Reply::Name(found)) => if found is Some && found->Some_0@ == self.wanted {
                Progress { at: At::Done(Some(self.slot() as u64)), ..self }
            } else {
                self.next_entry()
            },
            _ => self,
        }
    }

    pub open spec fn fits(self, reply: Reply) -> bool {
        match self.at {
            At::Descriptor => reply is Descriptor,
            At::Entry => reply is Entry,
            At::Name(_) => reply is Name,
            At::Done(_) => false,
        }
    }

    pub open spec fn phase(self) -> int {
        match self.at {
            At::Descriptor => 3,
            At::Entry => 2,
            At::Name(_) => 1,
            At::Done(_) => 0,
        }
    }
}

impl ImportSearch {
    /// Starts a search for `wanted` in the image at `base`, whose import directory takes `size`
    /// bytes from `rva` on.
    pub fn new(base: u64, rva: u32, size: u32, wanted: Vec<u8>) -> (r: Self)
        requires
            base <= MAX_BASE,
        ensures
            r@.wf(),
            r@ == (Progress {
                base,
                rva,
                size,
                wanted: wanted@,
                at: if rva == 0 || size == 0 {
                    At::Done(None)
                } else {
                    At::Descriptor
                },
                offset: 0,
                names: 0,
                thunk: 0,
                index: 0,
            }),
    {
        ImportSearch {
            base,
            rva,
            size,
            wanted,
            at: if rva == 0 || size == 0 {
                At::Done(None)
            } else {
                At::Descriptor
            },
            offset: 0,
            names: 0,
            thunk: 0,
            index: 0,
        }
    }

    pub fn query(&self) -> (r: Query)
        requires
            self@.wf(),
        ensures
            r == self@.query(),
    {
        match self.at {
            At::Descriptor => Query::Descriptor(self.base + self.rva as u64 + self.offset),
            At::Entry => Query::Entry {
                name: self.base + self.names as u64 + self.index as u64 * 8,
                slot: self.base + self.thunk as u64 + self.index as u64 * 8,
            },
            At::Name(entry) => Query::Name(self.base + entry + 2),
            At::Done(result) => Query::Done(result),
        }
    }

    fn next_descriptor(&mut self)
        requires
            old(self).offset < old(self).size,
        ensures
            final(self)@ == old(self)@.next_descriptor(),
    {
        self.offset = self.offset + 20;
        self.at = if self.offset < self.size as u64 {
            At::Descriptor
        } else {
            At::Done(None)
        };
    }

    fn next_entry(&mut self)
        requires
            old(self).offset < old(self).size,
            old(self).index < MAX_ENTRIES,
        ensures
            final(self)@ == old(self)@.next_entry(),
    {
        if self.index + 1 < MAX_ENTRIES {
            self.index = self.index + 1;
            self.at = At::Entry;
        } else {
            self.next_descriptor();
        }
    }

    /// Takes what was read. A reply to another question changes nothing.
    pub fn answer(&mut self, reply: Reply)
        requires
            old(self)@.wf(),
        ensures
            final(self)@.wf(),
            final(self)@ == old(self)@.after(reply),
    {
        match (self.at, reply) {
            (At::Descriptor, Reply::Descriptor(found)) => match found {
                Some(d) => if d.module == 0 {
                    self.at = At::Done(None);
                } else if d.names == 0 || d.thunk == 0 {
                    self.next_descriptor();
                } else {
                    self.names = d.names;
                    self.thunk = d.thunk;
                    self.index = 0;
                    self.at = At::Entry;
                },
                None => {
                    self.at = At::Done(None);
                },
            },
            (At::Entry, Reply::Entry(found)) => match found {
                Some(entry) => if entry == 0 {
                    self.next_descriptor();
                } else if entry >= 0x8000_0000_0000_0000 {
                    self.next_entry();
                } else {
                    self.at = At::Name(entry);
                },
                None => {
                    self.next_descriptor();
                },
            },
            (At::Name(_), Reply::Name(found)) => {
                let hit: bool = match &found {
                    Some(name) => same_bytes(name.as_slice(), self.wanted.as_slice()),
                    None => false,
                };
                if hit {
                    self.at = At::Done(
                        Some(self.base + self.thunk as u64 + self.index as u64 * 8),
                    );
                } else {
                    self.next_entry();
                }
            },
            _ => {},
        }
    }
}

/// Every reply that fits brings the search nearer to its end, so it ends whatever the memory
/// holds.
pub proof fn lemma_search_ends(p: Progress, reply: Reply)
    requires
        p.wf(),
        p.fits(reply),
    ensures
        p.after(reply).wf(),
        ({
            let n = p.after(reply);
            ||| n.at is Done
            ||| n.size - n.offset < p.size - p.offset
            ||| (n.offset == p.offset && n.size == p.size && p.at is Descriptor && n.at is Entry)
            ||| (n.offset == p.offset && n.size == p.size && n.index > p.index && n.at is Entry)
            ||| (n.offset == p.offset && n.size == p.size && n.index == p.index && n.phase()
                < p.phase())
        }),
{
}

/// A slot is only given for a name that was read and is the one wanted, and it is the slot that
/// belongs to that name.
pub proof fn lemma_found_slot(p: Progress, reply: Reply)
    requires
        p.wf(),
        !(p.at is Done),
        p.after(reply).at is Done,
        p.after(reply).at->Done_0 is Some,
    ensures
        reply matches Reply::Name(Some(name)) && name@ == p.wanted,
        p.after(reply).at->Done_0->Some_0 == p.base + p.thunk + p.index * 8,
{
}

} // verus!
