//! The pagestream binary exchange carried inside `CopyData`: requests of
//! three kinds (Exists, Nblocks, Read), their responses, and the rule that
//! turns the repository's answer into the response.
use vstd::prelude::*;
use crate::lsn::Lsn;

verus! {

/// Size of a page in bytes.
pub const BLCKSZ: usize = 8192;

/// Size of an encoded request.
pub const REQUEST_LEN: usize = 26;

pub const TAG_STATUS: u8 = 100;
pub const TAG_NBLOCKS: u8 = 101;
pub const TAG_READ: u8 = 102;

/// Identifies one fork of a relation.
#[derive(Clone, Copy, Debug, PartialEq, Eq, Structural, Hash)]
pub struct RelTag {
    pub spcnode: u32,
    pub dbnode: u32,
    pub relnode: u32,
    pub forknum: u8,
}

/// Identifies one page of a relation fork.
#[derive(Clone, Copy, Debug, PartialEq, Eq, Structural, Hash)]
pub struct BufferTag {
    pub rel: RelTag,
    pub blknum: u32,
}

#[derive(Clone, Copy, Debug, PartialEq, Eq, Structural)]
pub struct PagestreamRequest {
    pub spcnode: u32,
    pub dbnode: u32,
    pub relnode: u32,
    pub forknum: u8,
    pub blkno: u32,
    pub lsn: Lsn,
}

#[derive(Clone, Copy, Debug, PartialEq, Eq, Structural)]
pub enum PagestreamFeMessage {
    Exists(PagestreamRequest),
    Nblocks(PagestreamRequest),
    Read(PagestreamRequest),
}

#[derive(Clone, Copy, Debug, PartialEq, Eq, Structural)]
pub struct PagestreamStatusResponse {
    pub ok: bool,
    pub n_blocks: u32,
}

#[derive(Clone, Debug)]
pub struct PagestreamReadResponse {
    pub ok: bool,
    pub n_blocks: u32,
    pub page: Vec<u8>,
}

#[derive(Clone, Debug)]
pub enum PagestreamBeMessage {
    Status(PagestreamStatusResponse),
    Nblocks(PagestreamStatusResponse),
    Read(PagestreamReadResponse),
}

/// What a response says, with the page as a sequence of bytes.
pub ghost enum ResponseModel {
    Status { ok: bool, n_blocks: u32 },
    Nblocks { ok: bool, n_blocks: u32 },
    Read { ok: bool, n_blocks: u32, page: Seq<u8> },
}

/// Why a `CopyData` payload is not a pagestream message.
#[derive(Clone, Copy, Debug, PartialEq, Eq, Structural)]
pub enum PagestreamError {
    BadLength,
    UnknownTag,
    BadFlag,
}

pub open spec fn be_u32(v: u32) -> Seq<u8> {
    seq![(v >> 24) as u8, (v >> 16) as u8, (v >> 8) as u8, v as u8]
}

pub open spec fn be_u64(v: u64) -> Seq<u8> {
    seq![
        (v >> 56) as u8,
        (v >> 48) as u8,
        (v >> 40) as u8,
        (v >> 32) as u8,
        (v >> 24) as u8,
        (v >> 16) as u8,
        (v >> 8) as u8,
        v as u8,
    ]
}

pub open spec fn u32_at(b: Seq<u8>, i: int) -> u32 {
    ((b[i] as u32) << 24) | ((b[i + 1] as u32) << 16) | ((b[i + 2] as u32) << 8) | (b[i
        + 3] as u32)
}

pub open spec fn u64_at(b: Seq<u8>, i: int) -> u64 {
    ((b[i] as u64) << 56) | ((b[i + 1] as u64) << 48) | ((b[i + 2] as u64) << 40) | ((b[i
        + 3] as u64) << 32) | ((b[i + 4] as u64) << 24) | ((b[i + 5] as u64) << 16) | ((b[i
        + 6] as u64) << 8) | (b[i + 7] as u64)
}

pub proof fn lemma_u32_round_trip(v: u32)
    ensures
        u32_at(be_u32(v), 0) == v,
{
    let b0 = (v >> 24) as u8;
    let b1 = (v >> 16) as u8;
    let b2 = (v >> 8) as u8;
    let b3 = v as u8;
    assert(((b0 as u32) << 24) | ((b1 as u32) << 16) | ((b2 as u32) << 8) | (b3 as u32) == v)
        by (bit_vector)
        requires
            b0 == (v >> 24) as u8,
            b1 == (v >> 16) as u8,
            b2 == (v >> 8) as u8,
            b3 == v as u8,
    ;
}

pub proof fn lemma_u32_bytes_round_trip(b: Seq<u8>, i: int)
    requires
        0 <= i,
        i + 4 <= b.len(),
    ensures
        be_u32(u32_at(b, i)) == b.subrange(i, i + 4),
{
    let (b0, b1, b2, b3) = (b[i], b[i + 1], b[i + 2], b[i + 3]);
    let v = u32_at(b, i);
    assert((v >> 24) as u8 == b0 && (v >> 16) as u8 == b1 && (v >> 8) as u8 == b2 && v as u8
        == b3) by (bit_vector)
        requires
            v == ((b0 as u32) << 24) | ((b1 as u32) << 16) | ((b2 as u32) << 8) | (b3 as u32),
    ;
    assert(be_u32(v) =~= b.subrange(i, i + 4));
}

pub proof fn lemma_u64_round_trip(v: u64)
    ensures
        u64_at(be_u64(v), 0) == v,
{
    let b0 = (v >> 56) as u8;
    let b1 = (v >> 48) as u8;
    let b2 = (v >> 40) as u8;
    let b3 = (v >> 32) as u8;
    let b4 = (v >> 24) as u8;
    let b5 = (v >> 16) as u8;
    let b6 = (v >> 8) as u8;
    let b7 = v as u8;
    assert(((b0 as u64) << 56) | ((b1 as u64) << 48) | ((b2 as u64) << 40) | ((b3 as u64) << 32)
        | ((b4 as u64) << 24) | ((b5 as u64) << 16) | ((b6 as u64) << 8) | (b7 as u64) == v)
        by (bit_vector)
        requires
            b0 == (v >> 56) as u8,
            b1 == (v >> 48) as u8,
            b2 == (v >> 40) as u8,
            b3 == (v >> 32) as u8,
            b4 == (v >> 24) as u8,
            b5 == (v >> 16) as u8,
            b6 == (v >> 8) as u8,
            b7 == v as u8,
    ;
}

pub proof fn lemma_u64_bytes_round_trip(b: Seq<u8>, i: int)
    requires
        0 <= i,
        i + 8 <= b.len(),
    ensures
        be_u64(u64_at(b, i)) == b.subrange(i, i + 8),
{
    let (b0, b1, b2, b3) = (b[i], b[i + 1], b[i + 2], b[i + 3]);
    let (b4, b5, b6, b7) = (b[i + 4], b[i + 5], b[i + 6], b[i + 7]);
    let v = u64_at(b, i);
    assert((v >> 56) as u8 == b0 && (v >> 48) as u8 == b1 && (v >> 40) as u8 == b2 && (v >> 32)
        as u8 == b3 && (v >> 24) as u8 == b4 && (v >> 16) as u8 == b5 && (v >> 8) as u8 == b6
        && v as u8 == b7) by (bit_vector)
        requires
            v == ((b0 as u64) << 56) | ((b1 as u64) << 48) | ((b2 as u64) << 40) | ((b3 as u64)
                << 32) | ((b4 as u64) << 24) | ((b5 as u64) << 16) | ((b6 as u64) << 8) | (b7
                as u64),
    ;
    assert(be_u64(v) =~= b.subrange(i, i + 8));
}

pub fn put_u32(buf: &mut Vec<u8>, v: u32)
    ensures
        final(buf)@ == old(buf)@ + be_u32(v),
{
    buf.push((v >> 24) as u8);
    buf.push((v >> 16) as u8);
    buf.push((v >> 8) as u8);
    buf.push(v as u8);
    assert(buf@ =~= old(buf)@ + be_u32(v));
}

pub fn put_u64(buf: &mut Vec<u8>, v: u64)
    ensures
        final(buf)@ == old(buf)@ + be_u64(v),
{
    buf.push((v >> 56) as u8);
    buf.push((v >> 48) as u8);
    buf.push((v >> 40) as u8);
    buf.push((v >> 32) as u8);
    buf.push((v >> 24) as u8);
    buf.push((v >> 16) as u8);
    buf.push((v >> 8) as u8);
    buf.push(v as u8);
    assert(buf@ =~= old(buf)@ + be_u64(v));
}

pub fn get_u32(b: &[u8], i: usize) -> (r: u32)
    requires
        i + 4 <= b@.len(),
    ensures
        r == u32_at(b@, i as int),
{
    ((b[i] as u32) << 24) | ((b[i + 1] as u32) << 16) | ((b[i + 2] as u32) << 8) | (b[i
        + 3] as u32)
}

pub fn get_u64(b: &[u8], i: usize) -> (r: u64)
    requires
        i + 8 <= b@.len(),
    ensures
        r == u64_at(b@, i as int),
{
    ((b[i] as u64) << 56) | ((b[i + 1] as u64) << 48) | ((b[i + 2] as u64) << 40) | ((b[i
        + 3] as u64) << 32) | ((b[i + 4] as u64) << 24) | ((b[i + 5] as u64) << 16) | ((b[i
        + 6] as u64) << 8) | (b[i + 7] as u64)
}

pub open spec fn request_fields(r: PagestreamRequest) -> Seq<u8> {
    be_u32(r.spcnode) + be_u32(r.dbnode) + be_u32(r.relnode) + seq![r.forknum] + be_u32(r.blkno)
        + be_u64(r.lsn.0)
}

pub open spec fn request_at(b: Seq<u8>) -> PagestreamRequest {
    PagestreamRequest {
        spcnode: u32_at(b, 1),
        dbnode: u32_at(b, 5),
        relnode: u32_at(b, 9),
        forknum: b[13],
        blkno: u32_at(b, 14),
        lsn: Lsn(u64_at(b, 18)),
    }
}

impl PagestreamFeMessage {
    pub open spec fn kind(self) -> u8 {
        match self {
            PagestreamFeMessage::Exists(_) => 0,
            PagestreamFeMessage::Nblocks(_) => 1,
            PagestreamFeMessage::Read(_) => 2,
        }
    }

    pub open spec fn req(self) -> PagestreamRequest {
        match self {
            PagestreamFeMessage::Exists(r) => r,
            PagestreamFeMessage::Nblocks(r) => r,
            PagestreamFeMessage::Read(r) => r,
        }
    }

    /// The 26 bytes that encode this request.
    pub open spec fn spec_bytes(self) -> Seq<u8> {
        seq![self.kind()] + request_fields(self.req())
    }

    pub fn request(&self) -> (r: PagestreamRequest)
        ensures
            r == self.req(),
    {
        match self {
            PagestreamFeMessage::Exists(r) => *r,
            PagestreamFeMessage::Nblocks(r) => *r,
            PagestreamFeMessage::Read(r) => *r,
        }
    }

    pub fn serialize(&self) -> (r: Vec<u8>)
        ensures
            r@ == self.spec_bytes(),
    {
        let mut buf: Vec<u8> = Vec::new();
        let req = self.request();
        let kind: u8 = match self {
            PagestreamFeMessage::Exists(_) => 0,
            PagestreamFeMessage::Nblocks(_) => 1,
            PagestreamFeMessage::Read(_) => 2,
        };
        buf.push(kind);
        put_u32(&mut buf, req.spcnode);
        put_u32(&mut buf, req.dbnode);
        put_u32(&mut buf, req.relnode);
        buf.push(req.forknum);
        put_u32(&mut buf, req.blkno);
        put_u64(&mut buf, req.lsn.0);
        assert(buf@ =~= self.spec_bytes());
        buf
    }

    /// Decodes a request: exactly 26 bytes, with a kind of 0, 1 or 2.
    pub fn parse(body: &[u8]) -> (r: Result<PagestreamFeMessage, PagestreamError>)
        ensures
            r == parse_request_spec(body@),
    {
        if body.len() != REQUEST_LEN {
            return Err(PagestreamError::BadLength);
        }
        let tag = body[0];
        let req = PagestreamRequest {
            spcnode: get_u32(body, 1),
            dbnode: get_u32(body, 5),
            relnode: get_u32(body, 9),
            forknum: body[13],
            blkno: get_u32(body, 14),
            lsn: Lsn(get_u64(body, 18)),
        };
        match tag {
            0 => Ok(PagestreamFeMessage::Exists(req)),
            1 => Ok(PagestreamFeMessage::Nblocks(req)),
            2 => Ok(PagestreamFeMessage::Read(req)),
            _ => Err(PagestreamError::UnknownTag),
        }
    }
}

/// What a `CopyData` payload decodes to as a request.
pub open spec fn parse_request_spec(b: Seq<u8>) -> Result<PagestreamFeMessage, PagestreamError> {
    if b.len() != 26 {
        Err(PagestreamError::BadLength)
    } else if b[0] == 0 {
        Ok(PagestreamFeMessage::Exists(request_at(b)))
    } else if b[0] == 1 {
        Ok(PagestreamFeMessage::Nblocks(request_at(b)))
    } else if b[0] == 2 {
        Ok(PagestreamFeMessage::Read(request_at(b)))
    } else {
        Err(PagestreamError::UnknownTag)
    }
}

/// Decoding the encoding of any request gives that request back.
pub proof fn lemma_request_encode_decode(m: PagestreamFeMessage)
    ensures
        parse_request_spec(m.spec_bytes()) == Ok::<PagestreamFeMessage, PagestreamError>(m),
{
    let b = m.spec_bytes();
    let r = m.req();
    assert(b.len() == 26);
    assert(b.subrange(1, 5) =~= be_u32(r.spcnode));
    assert(b.subrange(5, 9) =~= be_u32(r.dbnode));
    assert(b.subrange(9, 13) =~= be_u32(r.relnode));
    assert(b.subrange(14, 18) =~= be_u32(r.blkno));
    assert(b.subrange(18, 26) =~= be_u64(r.lsn.0));
    lemma_u32_round_trip(r.spcnode);
    lemma_u32_round_trip(r.dbnode);
    lemma_u32_round_trip(r.relnode);
    lemma_u32_round_trip(r.blkno);
    lemma_u64_round_trip(r.lsn.0);
    assert(u32_at(b, 1) == u32_at(be_u32(r.spcnode), 0));
    assert(u32_at(b, 5) == u32_at(be_u32(r.dbnode), 0));
    assert(u32_at(b, 9) == u32_at(be_u32(r.relnode), 0));
    assert(u32_at(b, 14) == u32_at(be_u32(r.blkno), 0));
    assert(u64_at(b, 18) == u64_at(be_u64(r.lsn.0), 0));
    assert(request_at(b) == r);
}

/// Encoding a decoded request gives back the bytes it was decoded from.
pub proof fn lemma_request_decode_encode(b: Seq<u8>)
    requires
        parse_request_spec(b) is Ok,
    ensures
        parse_request_spec(b)->Ok_0.spec_bytes() == b,
{
    let m = parse_request_spec(b)->Ok_0;
    lemma_u32_bytes_round_trip(b, 1);
    lemma_u32_bytes_round_trip(b, 5);
    lemma_u32_bytes_round_trip(b, 9);
    lemma_u32_bytes_round_trip(b, 14);
    lemma_u64_bytes_round_trip(b, 18);
    assert(m.spec_bytes() =~= b);
}

pub open spec fn flag(b: bool) -> u8 {
    if b {
        1
    } else {
        0
    }
}

impl PagestreamBeMessage {
    pub open spec fn view(self) -> ResponseModel {
        match self {
            PagestreamBeMessage::Status(r) => ResponseModel::Status { ok: r.ok, n_blocks: r.n_blocks },
            PagestreamBeMessage::Nblocks(r) => ResponseModel::Nblocks {
                ok: r.ok,
                n_blocks: r.n_blocks,
            },
            PagestreamBeMessage::Read(r) => ResponseModel::Read {
                ok: r.ok,
                n_blocks: r.n_blocks,
                page: r.page@,
            },
        }
    }

    /// A read response carries exactly one page.
    pub open spec fn wf(self) -> bool {
        match self {
            PagestreamBeMessage::Read(r) => r.page@.len() == BLCKSZ,
            _ => true,
        }
    }

    pub fn serialize(&self) -> (r: Vec<u8>)
        ensures
            r@ == response_bytes(self.view()),
    {
        let mut buf: Vec<u8> = Vec::new();
        match self {
            PagestreamBeMessage::Status(resp) => {
                buf.push(TAG_STATUS);
                buf.push(if resp.ok { 1u8 } else { 0u8 });
                put_u32(&mut buf, resp.n_blocks);
            },
            PagestreamBeMessage::Nblocks(resp) => {
                buf.push(TAG_NBLOCKS);
                buf.push(if resp.ok { 1u8 } else { 0u8 });
                put_u32(&mut buf, resp.n_blocks);
            },
            PagestreamBeMessage::Read(resp) => {
                buf.push(TAG_READ);
                buf.push(if resp.ok { 1u8 } else { 0u8 });
                put_u32(&mut buf, resp.n_blocks);
                let mut i: usize = 0;
                let ghost head = buf@;
                while i < resp.page.len()
                    invariant
                        i <= resp.page@.len(),
                        buf@ == head + resp.page@.subrange(0, i as int),
                    decreases resp.page@.len() - i,
                {
                    buf.push(resp.page[i]);
                    i += 1;
                    assert(buf@ =~= head + resp.page@.subrange(0, i as int));
                }
                assert(resp.page@.subrange(0, resp.page@.len() as int) =~= resp.page@);
            },
        }
        assert(buf@ =~= response_bytes(self.view()));
        buf
    }

    /// Decodes a response: a status or size reply of 6 bytes, or a page
    /// reply of 8198 bytes; the `ok` byte is 0 or 1.
    pub fn parse(b: &[u8]) -> (r: Result<PagestreamBeMessage, PagestreamError>)
        ensures
            match parse_response_spec(b@) {
                Ok(m) => r matches Ok(x) && x.view() == m,
                Err(e) => r == Err::<PagestreamBeMessage, PagestreamError>(e),
            },
    {
        if b.len() < 6 {
            return Err(PagestreamError::BadLength);
        }
        let tag = b[0];
        if tag != TAG_STATUS && tag != TAG_NBLOCKS && tag != TAG_READ {
            return Err(PagestreamError::UnknownTag);
        }
        let want: usize = if tag == TAG_READ { 6 + BLCKSZ } else { 6 };
        if b.len() != want {
            return Err(PagestreamError::BadLength);
        }
        if b[1] > 1 {
            return Err(PagestreamError::BadFlag);
        }
        let ok = b[1] == 1;
        let n_blocks = get_u32(b, 2);
        if tag == TAG_STATUS {
            Ok(PagestreamBeMessage::Status(PagestreamStatusResponse { ok, n_blocks }))
        } else if tag == TAG_NBLOCKS {
            Ok(PagestreamBeMessage::Nblocks(PagestreamStatusResponse { ok, n_blocks }))
        } else {
            let page = crate::text::copy_range(b, 6, b.len());
            Ok(PagestreamBeMessage::Read(PagestreamReadResponse { ok, n_blocks, page }))
        }
    }
}

/// The bytes that encode a response.
pub open spec fn response_bytes(m: ResponseModel) -> Seq<u8> {
    match m {
        ResponseModel::Status { ok, n_blocks } => seq![TAG_STATUS, flag(ok)] + be_u32(n_blocks),
        ResponseModel::Nblocks { ok, n_blocks } => seq![TAG_NBLOCKS, flag(ok)] + be_u32(n_blocks),
        ResponseModel::Read { ok, n_blocks, page } => seq![TAG_READ, flag(ok)] + be_u32(n_blocks)
            + page,
    }
}

/// What a `CopyData` payload decodes to as a response.
pub open spec fn parse_response_spec(b: Seq<u8>) -> Result<ResponseModel, PagestreamError> {
    if b.len() < 6 {
        Err(PagestreamError::BadLength)
    } else if b[0] != TAG_STATUS && b[0] != TAG_NBLOCKS && b[0] != TAG_READ {
        Err(PagestreamError::UnknownTag)
    } else if b.len() != (if b[0] == TAG_READ { 6 + BLCKSZ } else { 6 }) {
        Err(PagestreamError::BadLength)
    } else if b[1] > 1 {
        Err(PagestreamError::BadFlag)
    } else if b[0] == TAG_STATUS {
        Ok(ResponseModel::Status { ok: b[1] == 1, n_blocks: u32_at(b, 2) })
    } else if b[0] == TAG_NBLOCKS {
        Ok(ResponseModel::Nblocks { ok: b[1] == 1, n_blocks: u32_at(b, 2) })
    } else {
        Ok(ResponseModel::Read { ok: b[1] == 1, n_blocks: u32_at(b, 2), page: b.subrange(6, b.len() as int) })
    }
}

pub open spec fn model_wf(m: ResponseModel) -> bool {
    match m {
        ResponseModel::Read { page, .. } => page.len() == BLCKSZ,
        _ => true,
    }
}

/// Decoding the encoding of any well-formed response gives that response back.
pub proof fn lemma_response_encode_decode(m: ResponseModel)
    requires
        model_wf(m),
    ensures
        parse_response_spec(response_bytes(m)) == Ok::<ResponseModel, PagestreamError>(m),
{
    let b = response_bytes(m);
    match m {
        ResponseModel::Status { ok, n_blocks } => {
            assert(b.subrange(2, 6) =~= be_u32(n_blocks));
            lemma_u32_round_trip(n_blocks);
            assert(u32_at(b, 2) == u32_at(be_u32(n_blocks), 0));
        },
        ResponseModel::Nblocks { ok, n_blocks } => {
            assert(b.subrange(2, 6) =~= be_u32(n_blocks));
            lemma_u32_round_trip(n_blocks);
            assert(u32_at(b, 2) == u32_at(be_u32(n_blocks), 0));
        },
        ResponseModel::Read { ok, n_blocks, page } => {
            assert(b.subrange(2, 6) =~= be_u32(n_blocks));
            lemma_u32_round_trip(n_blocks);
            assert(u32_at(b, 2) == u32_at(be_u32(n_blocks), 0));
            assert(b.subrange(6, b.len() as int) =~= page);
        },
    }
}

/// Encoding a decoded response gives back the bytes it was decoded from.
pub proof fn lemma_response_decode_encode(b: Seq<u8>)
    requires
        parse_response_spec(b) is Ok,
    ensures
        model_wf(parse_response_spec(b)->Ok_0),
        response_bytes(parse_response_spec(b)->Ok_0) == b,
{
    lemma_u32_bytes_round_trip(b, 2);
    assert(response_bytes(parse_response_spec(b)->Ok_0) =~= b);
}

/// A page of zeroes, sent in place of a page that could not be read.
pub fn zero_page() -> (r: Vec<u8>)
    ensures
        r@ == Seq::new(BLCKSZ as nat, |i: int| 0u8),
{
    let mut r: Vec<u8> = Vec::new();
    let mut i: usize = 0;
    while i < BLCKSZ
        invariant
            i <= BLCKSZ,
            r@ == Seq::new(i as nat, |j: int| 0u8),
        decreases BLCKSZ - i,
    {
        r.push(0);
        i += 1;
        assert(r@ =~= Seq::new(i as nat, |j: int| 0u8));
    }
    r
}

/// A question that a request puts to the timeline.
#[derive(Clone, Copy, Debug, PartialEq, Eq, Structural)]
pub enum PageQuery {
    RelExists(RelTag, Lsn),
    RelSize(RelTag, Lsn),
    PageAt(BufferTag, Lsn),
}

/// The timeline's answer to a `PageQuery`; `None` where the timeline failed.
#[derive(Clone, Debug)]
pub enum PageAnswer {
    RelExists(Option<bool>),
    RelSize(Option<u32>),
    PageAt(Option<Vec<u8>>),
}

pub open spec fn rel_of(r: PagestreamRequest) -> RelTag {
    RelTag { spcnode: r.spcnode, dbnode: r.dbnode, relnode: r.relnode, forknum: r.forknum }
}

pub open spec fn query_spec(m: PagestreamFeMessage) -> PageQuery {
    match m {
        PagestreamFeMessage::Exists(r) => PageQuery::RelExists(rel_of(r), r.lsn),
        PagestreamFeMessage::Nblocks(r) => PageQuery::RelSize(rel_of(r), r.lsn),
        PagestreamFeMessage::Read(r) => PageQuery::PageAt(BufferTag { rel: rel_of(r), blknum: r.blkno }, r.lsn),
    }
}

/// The answer is of the kind that the request asked for.
pub open spec fn answers(m: PagestreamFeMessage, a: PageAnswer) -> bool {
    match (m, a) {
        (PagestreamFeMessage::Exists(_), PageAnswer::RelExists(_)) => true,
        (PagestreamFeMessage::Nblocks(_), PageAnswer::RelSize(_)) => true,
        (PagestreamFeMessage::Read(_), PageAnswer::PageAt(_)) => true,
        _ => false,
    }
}

/// The response to an answer: an absent relation is no error for Exists
/// (`ok = false`) nor for Nblocks (`ok = true`, zero blocks); a failed or
/// malformed page read gives `ok = false` and a page of zeroes.
pub open spec fn response_spec(a: PageAnswer) -> ResponseModel {
    match a {
        PageAnswer::RelExists(e) => ResponseModel::Status { ok: e == Some(true), n_blocks: 0 },
        PageAnswer::RelSize(n) => ResponseModel::Nblocks {
            ok: true,
            n_blocks: match n {
                Some(k) => k,
                None => 0,
            },
        },
        PageAnswer::PageAt(p) => match p {
            Some(page) if page@.len() == BLCKSZ => ResponseModel::Read { ok: true, n_blocks: 0, page: page@ },
            _ => ResponseModel::Read { ok: false, n_blocks: 0, page: Seq::new(BLCKSZ as nat, |i: int| 0u8) },
        },
    }
}

/// The question that a request puts to the timeline.
pub fn page_query(m: &PagestreamFeMessage) -> (q: PageQuery)
    ensures
        q == query_spec(*m),
{
    match m {
        PagestreamFeMessage::Exists(r) => PageQuery::RelExists(
            RelTag { spcnode: r.spcnode, dbnode: r.dbnode, relnode: r.relnode, forknum: r.forknum },
            r.lsn,
        ),
        PagestreamFeMessage::Nblocks(r) => PageQuery::RelSize(
            RelTag { spcnode: r.spcnode, dbnode: r.dbnode, relnode: r.relnode, forknum: r.forknum },
            r.lsn,
        ),
        PagestreamFeMessage::Read(r) => PageQuery::PageAt(
            BufferTag {
                rel: RelTag {
                    spcnode: r.spcnode,
                    dbnode: r.dbnode,
                    relnode: r.relnode,
                    forknum: r.forknum,
                },
                blknum: r.blkno,
            },
            r.lsn,
        ),
    }
}

/// Turns the timeline's answer into the response to send.
pub fn pagestream_response(a: PageAnswer) -> (r: PagestreamBeMessage)
    ensures
        r.view() == response_spec(a),
        r.wf(),
{
    match a {
        PageAnswer::RelExists(e) => PagestreamBeMessage::Status(
            PagestreamStatusResponse {
                ok: match e {
                    Some(b) => b,
                    None => false,
                },
                n_blocks: 0,
            },
        ),
        PageAnswer::RelSize(n) => PagestreamBeMessage::Nblocks(
            PagestreamStatusResponse {
                ok: true,
                n_blocks: match n {
                    Some(k) => k,
                    None => 0,
                },
            },
        ),
        PageAnswer::PageAt(p) => {
            match p {
                Some(page) if page.len() == BLCKSZ => PagestreamBeMessage::Read(
                    PagestreamReadResponse { ok: true, n_blocks: 0, page },
                ),
                _ => PagestreamBeMessage::Read(
                    PagestreamReadResponse { ok: false, n_blocks: 0, page: zero_page() },
                ),
            }
        },
    }
}

pub open spec fn expected_tag(m: PagestreamFeMessage) -> u8 {
    match m {
        PagestreamFeMessage::Exists(_) => TAG_STATUS,
        PagestreamFeMessage::Nblocks(_) => TAG_NBLOCKS,
        PagestreamFeMessage::Read(_) => TAG_READ,
    }
}

/// Every decoded request gets a response of its own kind: Exists a status
/// reply (tag 100), Nblocks a size reply (tag 101), Read a page reply (tag 102).
pub proof fn lemma_response_matches_request(b: Seq<u8>, a: PageAnswer)
    requires
        parse_request_spec(b) is Ok,
        answers(parse_request_spec(b)->Ok_0, a),
    ensures
        response_bytes(response_spec(a))[0] == expected_tag(parse_request_spec(b)->Ok_0),
        model_wf(response_spec(a)),
{
}

/// Every page reply is 8198 bytes, of which the page takes exactly 8192.
pub proof fn lemma_read_response_size(a: PageAnswer)
    requires
        a is PageAt,
    ensures
        response_bytes(response_spec(a)).len() == 6 + BLCKSZ,
        response_spec(a)->Read_page.len() == BLCKSZ,
{
}

/// A page that could not be read is answered with `ok = false` and 8192
/// zero bytes.
pub proof fn lemma_failed_read_is_zero_page(p: Option<Vec<u8>>)
    requires
        !(p matches Some(page) && page@.len() == BLCKSZ),
    ensures
        response_spec(PageAnswer::PageAt(p))->Read_ok == false,
        forall|i: int|
            0 <= i < BLCKSZ ==> #[trigger] response_spec(PageAnswer::PageAt(p))->Read_page[i] == 0,
{
}

} // verus!
