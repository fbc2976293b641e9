//! Listing the members of a server piece by piece.

use vstd::prelude::*;
use crate::member::{Member, MemberView};
use crate::record::{views, Record};

verus! {

/// A finite sequence of member records that hands out one record at a time
/// and can be started again.
#[derive(Debug, PartialEq, Eq)]
pub enum ChunkedServerMembersGenerator {
    /// The records are held in memory; `offset` of them were handed out.
    Reference { offset: usize, data: Vec<Member> },
}

impl ChunkedServerMembersGenerator {
    /// Every record of the sequence, in order.
    pub open spec fn all(&self) -> Seq<MemberView> {
        match self {
            ChunkedServerMembersGenerator::Reference { data, .. } => views(data@),
        }
    }

    /// How many records were handed out.
    pub open spec fn position(&self) -> int {
        match self {
            ChunkedServerMembersGenerator::Reference { offset, .. } => *offset as int,
        }
    }

    /// No more records were handed out than there are.
    pub open spec fn wf(&self) -> bool {
        0 <= self.position() <= self.all().len()
    }

    /// The records still to come, in order.
    pub open spec fn remaining(&self) -> Seq<MemberView> {
        self.all().skip(self.position())
    }

    /// The sequence of the records `data`, at its start.
    pub fn new_reference(data: Vec<Member>) -> (r: Self)
        ensures
            r.wf(),
            r.all() == views(data@),
            r.position() == 0,
            r.remaining() == views(data@),
    {
        assert(views(data@).skip(0) =~= views(data@));
        ChunkedServerMembersGenerator::Reference { offset: 0, data }
    }

    /// The next record, or nothing once every record was handed out.
    pub fn next(&mut self) -> (r: Option<Member>)
        requires
            old(self).wf(),
        ensures
            final(self).wf(),
            final(self).all() == old(self).all(),
            match r {
                Some(member) => {
                    &&& old(self).remaining().len() > 0
                    &&& member@ == old(self).remaining()[0]
                    &&& final(self).position() == old(self).position() + 1
                    &&& final(self).remaining() == old(self).remaining().drop_first()
                },
                None => {
                    &&& old(self).remaining().len() == 0
                    &&& final(self).position() == old(self).position()
                },
            },
    {
        match self {
            ChunkedServerMembersGenerator::Reference { offset, data } => {
                if *offset >= data.len() {
                    None
                } else {
                    let resp = data[*offset].duplicate();
                    proof {
                        let all = views(data@);
                        assert(all.skip(*offset as int)[0] == all[*offset as int]);
                        assert(all.skip(*offset as int).drop_first() =~= all.skip(*offset + 1));
                    }
                    *offset += 1;
                    Some(resp)
                }
            },
        }
    }

    /// Starts the sequence again from its first record.
    pub fn restart(&mut self)
        ensures
            final(self).wf(),
            final(self).all() == old(self).all(),
            final(self).position() == 0,
            final(self).remaining() == old(self).all(),
    {
        match self {
            ChunkedServerMembersGenerator::Reference { offset, data } => {
                *offset = 0;
                assert(views(data@).skip(0) =~= views(data@));
            },
        }
    }
}

} // verus!
