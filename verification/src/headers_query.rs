//! The query for the parachain headers finalized between two relay blocks.
//!
//! The query scans the relay blocks in which the parachain head changed, and
//! collects the parachain header committed in each, in the order of the
//! relay blocks.

use vstd::prelude::*;
use crate::chain::{scale_decoded_header, ChainHeaderView, ParachainHeader, RelayChainHeader};
use crate::error::{DecodeError, Error, NotFound};
use crate::hash::BlockHash;
use crate::primitives::header_views;
use crate::proof_query::Stage;
use crate::prover::{
    fetched_bytes, head_view, header_lookup, header_lookup_view, lookup_header, Lookup, Request,
};

verus! {

/// The state of a query, as plain values.
pub struct HeadersQueryView {
    /// Identifier of the parachain.
    pub para_id: u32,
    /// Hash of the latest finalized relay block.
    pub latest: BlockHash,
    /// Hash of the relay block that was finalized before.
    pub previous: BlockHash,
    /// What the query waits for: the changed relay blocks, the header of
    /// one, its parachain head, or nothing.
    pub stage: Stage,
    /// The relay blocks in which the parachain head changed.
    pub changes: Seq<BlockHash>,
    /// Position in `changes` of the relay block under scan.
    pub index: int,
    /// The parachain headers collected so far: one for each relay block
    /// before the one under scan, in order.
    pub headers: Seq<ChainHeaderView>,
}

impl HeadersQueryView {
    /// The state in which a query starts.
    pub open spec fn start(
        para_id: u32,
        latest: BlockHash,
        previous: BlockHash,
    ) -> HeadersQueryView {
        HeadersQueryView {
            para_id,
            latest,
            previous,
            stage: Stage::Changes,
            changes: Seq::empty(),
            index: 0,
            headers: Seq::empty(),
        }
    }

    /// What holds of every state that a query goes through.
    pub open spec fn wf(self) -> bool {
        &&& self.stage is Changes || self.stage is ChangedHeader || self.stage is Head
            || self.stage is Done
        &&& 0 <= self.index <= self.changes.len()
        &&& self.stage is Changes ==> self.index == 0
        &&& self.stage is ChangedHeader || self.stage is Head ==> self.index < self.changes.len()
        &&& self.stage is Done ==> self.index == self.changes.len()
        &&& self.headers.len() == self.index
    }

    /// What the query asks for next; `None` when the headers are complete.
    pub open spec fn request(self) -> Option<Request> {
        match self.stage {
            Stage::Changes => Some(
                Request::StorageChanges {
                    para_id: self.para_id,
                    from: self.previous,
                    to: self.latest,
                },
            ),
            Stage::ChangedHeader => Some(Request::Header(self.changes[self.index])),
            Stage::Head => Some(
                Request::ParachainHead { para_id: self.para_id, at: self.changes[self.index] },
            ),
            _ => None,
        }
    }

    /// The state once the relay block at `index` is to be scanned: the scan
    /// is over if there is no such block.
    pub open spec fn scan(self, index: int) -> HeadersQueryView {
        HeadersQueryView {
            stage: if index < self.changes.len() {
                Stage::ChangedHeader
            } else {
                Stage::Done
            },
            index,
            ..self
        }
    }

    /// The state after the changed relay blocks came back: the scan starts
    /// with the first of them. In any other stage than `Changes` nothing
    /// changes.
    pub open spec fn with_storage_changes(self, blocks: Seq<BlockHash>) -> HeadersQueryView {
        if !(self.stage is Changes) {
            self
        } else {
            HeadersQueryView { changes: blocks, ..self }.scan(0)
        }
    }

    /// The state after the header of the relay block under scan came back,
    /// or why the query fails. A header is taken only if its hash is the one
    /// that was asked for; the scan then goes on to the parachain head of
    /// the block. In any other stage than `ChangedHeader` nothing changes.
    pub open spec fn with_header(
        self,
        header: Lookup<ChainHeaderView>,
    ) -> Result<HeadersQueryView, Error> {
        if !(self.stage is ChangedHeader) {
            Ok(self)
        } else {
            let block = self.changes[self.index];
            match header {
                Lookup::NotFound => Err(Error::NotFound(NotFound::Header(block))),
                Lookup::Malformed => Err(Error::Decode(DecodeError::Header)),
                Lookup::Found(found) => if found.hash == block {
                    Ok(HeadersQueryView { stage: Stage::Head, ..self })
                } else {
                    Err(Error::NotFound(NotFound::Header(block)))
                },
            }
        }
    }

    /// The state after the parachain head of the relay block under scan came
    /// back, `None` where it did not decode, or why the query fails. The
    /// header is collected, and the scan goes on with the next relay block.
    /// In any other stage than `Head` nothing changes.
    pub open spec fn with_parachain_head(
        self,
        head: Option<ChainHeaderView>,
    ) -> Result<HeadersQueryView, Error> {
        if !(self.stage is Head) {
            Ok(self)
        } else {
            match head {
                None => Err(Error::Decode(DecodeError::Header)),
                Some(header) => Ok(
                    HeadersQueryView { headers: self.headers.push(header), ..self }.scan(
                        self.index + 1,
                    ),
                ),
            }
        }
    }
}

/// A query for the parachain headers between two relay blocks, in progress.
#[derive(Debug)]
pub struct HeadersQuery {
    para_id: u32,
    latest: BlockHash,
    previous: BlockHash,
    stage: Stage,
    changes: Vec<BlockHash>,
    index: usize,
    headers: Vec<ParachainHeader>,
}

impl View for HeadersQuery {
    type V = HeadersQueryView;

    closed spec fn view(&self) -> HeadersQueryView {
        HeadersQueryView {
            para_id: self.para_id,
            latest: self.latest,
            previous: self.previous,
            stage: self.stage,
            changes: self.changes@,
            index: self.index as int,
            headers: header_views(self.headers@),
        }
    }
}

impl HeadersQuery {
    /// Every state of a query is well formed.
    #[verifier::type_invariant]
    pub closed spec fn inv(&self) -> bool {
        self@.wf()
    }

    /// Starts a query.
    pub fn start(para_id: u32, latest: BlockHash, previous: BlockHash) -> (query: HeadersQuery)
        ensures
            query@ == HeadersQueryView::start(para_id, latest, previous),
            query@.wf(),
    {
        let query = HeadersQuery {
            para_id,
            latest,
            previous,
            stage: Stage::Changes,
            changes: Vec::new(),
            index: 0,
            headers: Vec::new(),
        };
        assert(query@.headers =~= Seq::<ChainHeaderView>::empty());
        query
    }

    /// What to fetch next; `None` when the headers are complete.
    pub fn request(&self) -> (request: Option<Request>)
        ensures
            request == self@.request(),
            self@.wf(),
    {
        proof {
            use_type_invariant(self);
        }
        match self.stage {
            Stage::Changes => Some(
                Request::StorageChanges {
                    para_id: self.para_id,
                    from: self.previous,
                    to: self.latest,
                },
            ),
            Stage::ChangedHeader => Some(Request::Header(self.changes[self.index])),
            Stage::Head => Some(
                Request::ParachainHead { para_id: self.para_id, at: self.changes[self.index] },
            ),
            _ => None,
        }
    }

    /// Takes the relay blocks in which the parachain head changed, in the
    /// order in which the chain reported them: see
    /// [`HeadersQueryView::with_storage_changes`].
    pub fn on_storage_changes(self, blocks: Vec<BlockHash>) -> (next: HeadersQuery)
        ensures
            next@ == self@.with_storage_changes(blocks@),
            next@.wf(),
    {
        proof {
            use_type_invariant(&self);
        }
        match self.stage {
            Stage::Changes => {
                let stage = if blocks.len() > 0 {
                    Stage::ChangedHeader
                } else {
                    Stage::Done
                };
                HeadersQuery { stage, changes: blocks, index: 0, ..self }
            },
            _ => self,
        }
    }

    /// Takes the header that was looked up: see
    /// [`HeadersQueryView::with_header`].
    pub fn with_header(
        self,
        header: Lookup<RelayChainHeader>,
    ) -> (result: Result<HeadersQuery, Error>)
        ensures
            match result {
                Ok(next) => self@.with_header(header_lookup_view(header)) == Ok::<
                    HeadersQueryView,
                    Error,
                >(next@) && next@.wf(),
                Err(error) => self@.with_header(header_lookup_view(header)) == Err::<
                    HeadersQueryView,
                    Error,
                >(error),
            },
    {
        proof {
            use_type_invariant(&self);
        }
        match self.stage {
            Stage::ChangedHeader => {
                let block = self.changes[self.index];
                match header {
                    Lookup::NotFound => Err(Error::NotFound(NotFound::Header(block))),
                    Lookup::Malformed => Err(Error::Decode(DecodeError::Header)),
                    Lookup::Found(found) => {
                        if found.hash() == block {
                            Ok(HeadersQuery { stage: Stage::Head, ..self })
                        } else {
                            Err(Error::NotFound(NotFound::Header(block)))
                        }
                    },
                }
            },
            _ => Ok(self),
        }
    }

    /// Takes the parachain head that was decoded: see
    /// [`HeadersQueryView::with_parachain_head`].
    pub fn with_parachain_head(
        self,
        head: Option<ParachainHeader>,
    ) -> (result: Result<HeadersQuery, Error>)
        ensures
            match result {
                Ok(next) => self@.with_parachain_head(head_view(head)) == Ok::<
                    HeadersQueryView,
                    Error,
                >(next@) && next@.wf(),
                Err(error) => self@.with_parachain_head(head_view(head)) == Err::<
                    HeadersQueryView,
                    Error,
                >(error),
            },
    {
        proof {
            use_type_invariant(&self);
        }
        match self.stage {
            Stage::Head => match head {
                None => Err(Error::Decode(DecodeError::Header)),
                Some(header) => {
                    let ghost before = header_views(self.headers@);
                    let mut headers = self.headers;
                    headers.push(header);
                    assert(header_views(headers@) =~= before.push(header@));
                    assert(self.index < self.changes.len());
                    let index: usize = self.index + 1;
                    let stage = if index < self.changes.len() {
                        Stage::ChangedHeader
                    } else {
                        Stage::Done
                    };
                    Ok(HeadersQuery { stage, index, headers, ..self })
                },
            },
            _ => Ok(self),
        }
    }

    /// Takes the header that came back, encoded, or `None` where the chain
    /// has no header under the hash.
    pub fn on_header(self, encoded: Option<Vec<u8>>) -> (result: Result<HeadersQuery, Error>)
        ensures
            match result {
                Ok(next) => self@.with_header(header_lookup(fetched_bytes(encoded))) == Ok::<
                    HeadersQueryView,
                    Error,
                >(next@) && next@.wf(),
                Err(error) => self@.with_header(header_lookup(fetched_bytes(encoded))) == Err::<
                    HeadersQueryView,
                    Error,
                >(error),
            },
    {
        self.with_header(lookup_header(encoded))
    }

    /// Takes the parachain head that came back, encoded.
    pub fn on_parachain_head(self, head: Vec<u8>) -> (result: Result<HeadersQuery, Error>)
        ensures
            match result {
                Ok(next) => self@.with_parachain_head(scale_decoded_header(head@)) == Ok::<
                    HeadersQueryView,
                    Error,
                >(next@) && next@.wf(),
                Err(error) => self@.with_parachain_head(scale_decoded_header(head@)) == Err::<
                    HeadersQueryView,
                    Error,
                >(error),
            },
    {
        self.with_parachain_head(ParachainHeader::decode(head.as_slice()))
    }

    /// The parachain headers, once the query has nothing left to ask; `None`
    /// before. There is one header for each changed relay block, in the
    /// order of the relay blocks.
    pub fn finish(self) -> (headers: Option<Vec<ParachainHeader>>)
        ensures
            self@.wf(),
            match headers {
                Some(headers) => {
                    &&& self@.stage is Done
                    &&& header_views(headers@) == self@.headers
                    &&& headers@.len() == self@.changes.len()
                },
                None => !(self@.stage is Done),
            },
    {
        proof {
            use_type_invariant(&self);
        }
        match self.stage {
            Stage::Done => Some(self.headers),
            _ => None,
        }
    }
}

} // verus!
