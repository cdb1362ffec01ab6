//! The subset of the Postgres v3 frontend/backend protocol that the page
//! service speaks: backend messages are encoded here, frontend messages
//! decoded, all lengths in network byte order.
use vstd::prelude::*;
use crate::pagestream::{be_u32, put_u32, get_u32, u32_at};

verus! {

/// The largest body a message can carry: its length field, which counts
/// itself, must fit in 32 bits.
pub const MAX_BODY: usize = 0xFFFF_FFFB;

/// The largest number of columns in a row.
pub const MAX_COLUMNS: usize = 0x7FFF;

/// Type OID of `text`.
pub const TEXT_OID: u32 = 25;

/// Type OID of `int8`.
pub const INT8_OID: u32 = 20;

/// One column of a `RowDescription`; `typlen` and `typmod` hold the bit
/// patterns of the protocol's signed fields.
#[derive(Clone, Debug)]
pub struct RowDescriptor {
    pub name: Vec<u8>,
    pub tableoid: u32,
    pub attnum: u16,
    pub typoid: u32,
    pub typlen: u16,
    pub typmod: u32,
    pub formatcode: u16,
}

pub ghost struct RowDescriptorModel {
    pub name: Seq<u8>,
    pub tableoid: u32,
    pub attnum: u16,
    pub typoid: u32,
    pub typlen: u16,
    pub typmod: u32,
    pub formatcode: u16,
}

impl RowDescriptor {
    pub open spec fn view(self) -> RowDescriptorModel {
        RowDescriptorModel {
            name: self.name@,
            tableoid: self.tableoid,
            attnum: self.attnum,
            typoid: self.typoid,
            typlen: self.typlen,
            typmod: self.typmod,
            formatcode: self.formatcode,
        }
    }
}

/// A message from the server to the client.
#[derive(Clone, Debug)]
pub enum BeMessage {
    AuthenticationOk,
    CommandComplete(Vec<u8>),
    CopyData(Vec<u8>),
    CopyDone,
    CopyInResponse,
    CopyOutResponse,
    CopyBothResponse,
    DataRow(Vec<Option<Vec<u8>>>),
    ErrorResponse(Vec<u8>),
    EncryptionResponse(bool),
    ReadyForQuery,
    RowDescription(Vec<RowDescriptor>),
}

pub open spec fn be_u16(v: u16) -> Seq<u8> {
    seq![(v >> 8) as u8, v as u8]
}

pub open spec fn cstr(s: Seq<u8>) -> Seq<u8> {
    s.push(0)
}

pub open spec fn descriptor_bytes(d: RowDescriptorModel) -> Seq<u8> {
    cstr(d.name) + be_u32(d.tableoid) + be_u16(d.attnum) + be_u32(d.typoid) + be_u16(d.typlen)
        + be_u32(d.typmod) + be_u16(d.formatcode)
}

pub open spec fn descriptors_bytes(ds: Seq<RowDescriptorModel>) -> Seq<u8>
    decreases ds.len(),
{
    if ds.len() == 0 {
        Seq::empty()
    } else {
        descriptors_bytes(ds.drop_last()) + descriptor_bytes(ds.last())
    }
}

pub open spec fn value_bytes(v: Option<Seq<u8>>) -> Seq<u8> {
    match v {
        Some(b) => be_u32(b.len() as u32) + b,
        None => be_u32(0xFFFF_FFFF),
    }
}

pub open spec fn values_bytes(vs: Seq<Option<Seq<u8>>>) -> Seq<u8>
    decreases vs.len(),
{
    if vs.len() == 0 {
        Seq::empty()
    } else {
        values_bytes(vs.drop_last()) + value_bytes(vs.last())
    }
}

pub open spec fn values_view(vs: Seq<Option<Vec<u8>>>) -> Seq<Option<Seq<u8>>> {
    vs.map_values(|v: Option<Vec<u8>>| match v {
        Some(b) => Some(b@),
        None => None,
    })
}

pub open spec fn descriptors_view(ds: Seq<RowDescriptor>) -> Seq<RowDescriptorModel> {
    ds.map_values(|d: RowDescriptor| d.view())
}

/// A message as its tag and body, or `None` where a count or a length does
/// not fit its field.
pub open spec fn message_parts(m: BeMessage) -> Option<(u8, Seq<u8>)> {
    match m {
        BeMessage::AuthenticationOk => Some((82, be_u32(0))),
        BeMessage::CommandComplete(tag) => Some((67, cstr(tag@))),
        BeMessage::CopyData(d) => Some((100, d@)),
        BeMessage::CopyDone => Some((99, Seq::empty())),
        BeMessage::CopyInResponse => Some((71, seq![1u8, 0u8, 0u8])),
        BeMessage::CopyOutResponse => Some((72, seq![1u8, 0u8, 0u8])),
        BeMessage::CopyBothResponse => Some((87, seq![1u8, 0u8, 0u8])),
        BeMessage::DataRow(vs) => if vs@.len() <= MAX_COLUMNS && (forall|i: int|
            0 <= i < vs@.len() ==> (#[trigger] vs@[i] matches Some(b) ==> b@.len() < 0x7FFF_FFFF)) {
            Some((68, be_u16(vs@.len() as u16) + values_bytes(values_view(vs@))))
        } else {
            None
        },
        BeMessage::ErrorResponse(msg) => Some(
            (69, seq![83u8] + cstr(error_severity()) + seq![67u8] + cstr(internal_error_code())
                + seq![77u8] + cstr(msg@) + seq![0u8]),
        ),
        BeMessage::EncryptionResponse(_) => None,
        BeMessage::ReadyForQuery => Some((90, seq![73u8])),
        BeMessage::RowDescription(ds) => if ds@.len() <= MAX_COLUMNS {
            Some((84, be_u16(ds@.len() as u16) + descriptors_bytes(descriptors_view(ds@))))
        } else {
            None
        },
    }
}

/// The bytes that carry a message on the wire, or `None` where it does not
/// fit. Every message but the answer to an encryption request is a tag, a
/// length that counts itself, and the body; that answer is one byte.
pub open spec fn message_bytes(m: BeMessage) -> Option<Seq<u8>> {
    match m {
        BeMessage::EncryptionResponse(yes) => Some(seq![if yes { 83u8 } else { 78u8 }]),
        _ => match message_parts(m) {
            Some((tag, body)) => if body.len() <= MAX_BODY {
                Some(seq![tag] + be_u32((body.len() + 4) as u32) + body)
            } else {
                None
            },
            None => None,
        },
    }
}

pub open spec fn error_severity() -> Seq<u8> {
    seq![69u8, 82u8, 82u8, 79u8, 82u8]
}

pub open spec fn internal_error_code() -> Seq<u8> {
    seq![88u8, 88u8, 48u8, 48u8, 48u8]
}

/// Why a message could not be written.
#[derive(Clone, Copy, Debug, PartialEq, Eq, Structural)]
pub enum WireError {
    TooLarge,
}

fn put_u16(buf: &mut Vec<u8>, v: u16)
    ensures
        final(buf)@ == old(buf)@ + be_u16(v),
{
    buf.push((v >> 8) as u8);
    buf.push(v as u8);
    assert(buf@ =~= old(buf)@ + be_u16(v));
}

fn put_bytes(buf: &mut Vec<u8>, b: &[u8])
    ensures
        final(buf)@ == old(buf)@ + b@,
{
    let mut i: usize = 0;
    while i < b.len()
        invariant
            i <= b@.len(),
            buf@ == old(buf)@ + b@.subrange(0, i as int),
        decreases b@.len() - i,
    {
        buf.push(b[i]);
        i += 1;
        assert(buf@ =~= old(buf)@ + b@.subrange(0, i as int));
    }
    assert(b@.subrange(0, b@.len() as int) =~= b@);
}

fn put_cstr(buf: &mut Vec<u8>, b: &[u8])
    ensures
        final(buf)@ == old(buf)@ + cstr(b@),
{
    put_bytes(buf, b);
    buf.push(0);
    assert(buf@ =~= old(buf)@ + cstr(b@));
}

fn descriptors_body(ds: &Vec<RowDescriptor>) -> (r: Vec<u8>)
    ensures
        r@ == descriptors_bytes(descriptors_view(ds@)),
{
    let mut body: Vec<u8> = Vec::new();
    let mut i: usize = 0;
    while i < ds.len()
        invariant
            i <= ds@.len(),
            body@ == descriptors_bytes(descriptors_view(ds@.subrange(0, i as int))),
        decreases ds@.len() - i,
    {
        let d = &ds[i];
        let ghost before = body@;
        put_cstr(&mut body, d.name.as_slice());
        put_u32(&mut body, d.tableoid);
        put_u16(&mut body, d.attnum);
        put_u32(&mut body, d.typoid);
        put_u16(&mut body, d.typlen);
        put_u32(&mut body, d.typmod);
        put_u16(&mut body, d.formatcode);
        let ghost prefix = descriptors_view(ds@.subrange(0, i + 1));
        assert(prefix.drop_last() =~= descriptors_view(ds@.subrange(0, i as int)));
        assert(prefix.last() == d.view());
        assert(body@ =~= before + descriptor_bytes(d.view()));
        i += 1;
    }
    assert(ds@.subrange(0, ds@.len() as int) =~= ds@);
    body
}

fn values_body(vs: &Vec<Option<Vec<u8>>>) -> (r: Vec<u8>)
    requires
        forall|i: int| 0 <= i < vs@.len() ==> (#[trigger] vs@[i] matches Some(b) ==> b@.len() < 0x7FFF_FFFF),
    ensures
        r@ == values_bytes(values_view(vs@)),
{
    let mut body: Vec<u8> = Vec::new();
    let mut i: usize = 0;
    while i < vs.len()
        invariant
            i <= vs@.len(),
            body@ == values_bytes(values_view(vs@.subrange(0, i as int))),
            forall|i: int| 0 <= i < vs@.len() ==> (#[trigger] vs@[i] matches Some(b) ==> b@.len() < 0x7FFF_FFFF),
        decreases vs@.len() - i,
    {
        let ghost before = body@;
        let ghost prefix = values_view(vs@.subrange(0, i + 1));
        assert(prefix.drop_last() =~= values_view(vs@.subrange(0, i as int)));
        match &vs[i] {
            Some(b) => {
                put_u32(&mut body, b.len() as u32);
                put_bytes(&mut body, b.as_slice());
                assert(prefix.last() == Some(b@));
            },
            None => {
                put_u32(&mut body, 0xFFFF_FFFF);
                assert(prefix.last() == None::<Seq<u8>>);
            },
        }
        assert(body@ =~= values_bytes(prefix));
        i += 1;
    }
    assert(vs@.subrange(0, vs@.len() as int) =~= vs@);
    body
}

fn check_values(vs: &Vec<Option<Vec<u8>>>) -> (r: bool)
    ensures
        r == (vs@.len() <= MAX_COLUMNS && (forall|i: int|
            0 <= i < vs@.len() ==> (#[trigger] vs@[i] matches Some(b) ==> b@.len() < 0x7FFF_FFFF))),
{
    if vs.len() > MAX_COLUMNS {
        return false;
    }
    let mut i: usize = 0;
    while i < vs.len()
        invariant
            i <= vs@.len(),
            forall|j: int| 0 <= j < i ==> (#[trigger] vs@[j] matches Some(b) ==> b@.len() < 0x7FFF_FFFF),
        decreases vs@.len() - i,
    {
        match &vs[i] {
            Some(b) => {
                if b.len() >= 0x7FFF_FFFF {
                    return false;
                }
            },
            None => {},
        }
        i += 1;
    }
    true
}

/// Appends the encoding of a message to `buf`; a message that does not fit
/// its length fields leaves `buf` as it was.
pub fn write_message(buf: &mut Vec<u8>, m: &BeMessage) -> (r: Result<(), WireError>)
    ensures
        match message_bytes(*m) {
            Some(b) => r is Ok && final(buf)@ == old(buf)@ + b,
            None => r is Err && final(buf)@ == old(buf)@,
        },
{
    let (tag, body): (u8, Vec<u8>) = match m {
        BeMessage::EncryptionResponse(yes) => {
            buf.push(if *yes { 83u8 } else { 78u8 });
            assert(buf@ =~= old(buf)@ + seq![if *yes { 83u8 } else { 78u8 }]);
            return Ok(());
        },
        BeMessage::AuthenticationOk => {
            let mut b: Vec<u8> = Vec::new();
            put_u32(&mut b, 0);
            (82u8, b)
        },
        BeMessage::CommandComplete(tag) => {
            let mut b: Vec<u8> = Vec::new();
            put_cstr(&mut b, tag.as_slice());
            (67u8, b)
        },
        BeMessage::CopyData(d) => {
            let mut b: Vec<u8> = Vec::new();
            put_bytes(&mut b, d.as_slice());
            (100u8, b)
        },
        BeMessage::CopyDone => (99u8, Vec::new()),
        BeMessage::CopyInResponse => (71u8, copy_response_body()),
        BeMessage::CopyOutResponse => (72u8, copy_response_body()),
        BeMessage::CopyBothResponse => (87u8, copy_response_body()),
        BeMessage::DataRow(vs) => {
            if !check_values(vs) {
                return Err(WireError::TooLarge);
            }
            let mut b: Vec<u8> = Vec::new();
            put_u16(&mut b, vs.len() as u16);
            let rest = values_body(vs);
            put_bytes(&mut b, rest.as_slice());
            (68u8, b)
        },
        BeMessage::ErrorResponse(msg) => (69u8, error_body(msg.as_slice())),
        BeMessage::ReadyForQuery => {
            let mut b: Vec<u8> = Vec::new();
            b.push(73);
            assert(b@ =~= seq![73u8]);
            (90u8, b)
        },
        BeMessage::RowDescription(ds) => {
            if ds.len() > MAX_COLUMNS {
                return Err(WireError::TooLarge);
            }
            let mut b: Vec<u8> = Vec::new();
            put_u16(&mut b, ds.len() as u16);
            let rest = descriptors_body(ds);
            put_bytes(&mut b, rest.as_slice());
            (84u8, b)
        },
    };
    assert(message_parts(*m) == Some((tag, body@))) by {
        assert(body@ =~= message_parts(*m)->Some_0.1);
    }
    if body.len() > MAX_BODY {
        return Err(WireError::TooLarge);
    }
    buf.push(tag);
    put_u32(buf, (body.len() + 4) as u32);
    put_bytes(buf, body.as_slice());
    assert(final(buf)@ =~= old(buf)@ + (seq![tag] + be_u32((body@.len() + 4) as u32) + body@));
    Ok(())
}

fn copy_response_body() -> (r: Vec<u8>)
    ensures
        r@ == seq![1u8, 0u8, 0u8],
{
    let mut b: Vec<u8> = Vec::new();
    b.push(1);
    b.push(0);
    b.push(0);
    assert(b@ =~= seq![1u8, 0u8, 0u8]);
    b
}

fn error_body(msg: &[u8]) -> (r: Vec<u8>)
    ensures
        r@ == seq![83u8] + cstr(error_severity()) + seq![67u8] + cstr(internal_error_code())
            + seq![77u8] + cstr(msg@) + seq![0u8],
{
    let mut b: Vec<u8> = Vec::new();
    b.push(83);
    b.push(69);
    b.push(82);
    b.push(82);
    b.push(79);
    b.push(82);
    b.push(0);
    b.push(67);
    b.push(88);
    b.push(88);
    b.push(48);
    b.push(48);
    b.push(48);
    b.push(0);
    b.push(77);
    let ghost head = b@;
    put_cstr(&mut b, msg);
    b.push(0);
    assert(b@ =~= seq![83u8] + cstr(error_severity()) + seq![67u8] + cstr(internal_error_code())
        + seq![77u8] + cstr(msg@) + seq![0u8]);
    b
}

/// A message from the client, after the startup phase.
#[derive(Clone, Debug)]
pub enum FeMessage {
    Query(Vec<u8>),
    CopyData(Vec<u8>),
    CopyDone,
    CopyFail,
    Sync,
    Flush,
    Terminate,
    /// A message of another kind, by its tag; the page service ignores or
    /// refuses these.
    Other(u8),
}

pub ghost enum FeModel {
    Query(Seq<u8>),
    CopyData(Seq<u8>),
    CopyDone,
    CopyFail,
    Sync,
    Flush,
    Terminate,
    Other(u8),
}

impl FeMessage {
    pub open spec fn view(self) -> FeModel {
        match self {
            FeMessage::Query(b) => FeModel::Query(b@),
            FeMessage::CopyData(b) => FeModel::CopyData(b@),
            FeMessage::CopyDone => FeModel::CopyDone,
            FeMessage::CopyFail => FeModel::CopyFail,
            FeMessage::Sync => FeModel::Sync,
            FeMessage::Flush => FeModel::Flush,
            FeMessage::Terminate => FeModel::Terminate,
            FeMessage::Other(t) => FeModel::Other(t),
        }
    }
}

/// The outcome of reading one client message from the front of a buffer.
#[derive(Clone, Debug)]
pub enum FeParse {
    /// More bytes are needed.
    Incomplete,
    /// The length field is smaller than itself.
    Malformed,
    /// A message, and how many bytes of the buffer it took.
    Message(FeMessage, usize),
}

pub open spec fn fe_of(tag: u8, body: Seq<u8>) -> FeModel {
    if tag == 81 {
        FeModel::Query(body)
    } else if tag == 100 {
        FeModel::CopyData(body)
    } else if tag == 99 {
        FeModel::CopyDone
    } else if tag == 102 {
        FeModel::CopyFail
    } else if tag == 83 {
        FeModel::Sync
    } else if tag == 72 {
        FeModel::Flush
    } else if tag == 88 {
        FeModel::Terminate
    } else {
        FeModel::Other(tag)
    }
}

/// What the front of a buffer holds: a tag byte, a length that counts
/// itself, and a body.
pub open spec fn fe_parse_spec(b: Seq<u8>) -> Option<Option<(FeModel, nat)>> {
    if b.len() < 5 {
        Some(None)
    } else if u32_at(b, 1) < 4 {
        None
    } else if b.len() < u32_at(b, 1) + 1 {
        Some(None)
    } else {
        Some(Some((fe_of(b[0], b.subrange(5, u32_at(b, 1) + 1)), (u32_at(b, 1) + 1) as nat)))
    }
}

impl FeParse {
    /// `None` for a malformed buffer, `Some(None)` for an incomplete one.
    pub open spec fn view(self) -> Option<Option<(FeModel, nat)>> {
        match self {
            FeParse::Incomplete => Some(None),
            FeParse::Malformed => None,
            FeParse::Message(m, n) => Some(Some((m.view(), n as nat))),
        }
    }
}

/// Reads one client message from the front of `b`.
pub fn parse_fe_message(b: &[u8]) -> (r: FeParse)
    ensures
        r.view() == fe_parse_spec(b@),
{
    if b.len() < 5 {
        return FeParse::Incomplete;
    }
    let len = get_u32(b, 1);
    if len < 4 {
        return FeParse::Malformed;
    }
    if (b.len() as u64) < (len as u64) + 1 {
        return FeParse::Incomplete;
    }
    let end = len as usize + 1;
    let body = crate::text::copy_range(b, 5, end);
    let tag = b[0];
    let m = if tag == 81 {
        FeMessage::Query(body)
    } else if tag == 100 {
        FeMessage::CopyData(body)
    } else if tag == 99 {
        FeMessage::CopyDone
    } else if tag == 102 {
        FeMessage::CopyFail
    } else if tag == 83 {
        FeMessage::Sync
    } else if tag == 72 {
        FeMessage::Flush
    } else if tag == 88 {
        FeMessage::Terminate
    } else {
        FeMessage::Other(tag)
    };
    FeParse::Message(m, end)
}

/// Protocol version 3.0, as a startup packet states it.
pub const PROTOCOL_V3: u32 = 196608;

/// The request code of a client that asks for TLS.
pub const SSL_REQUEST_CODE: u32 = 80877103;

/// The request code of a client that asks for GSSAPI encryption.
pub const GSS_REQUEST_CODE: u32 = 80877104;

/// The request code of a cancel request.
pub const CANCEL_REQUEST_CODE: u32 = 80877102;

/// What the first packet of a connection asks for.
#[derive(Clone, Copy, Debug, PartialEq, Eq, Structural)]
pub enum StartupKind {
    /// The client asks for TLS; this service answers `N` and goes on in plain text.
    SslRequest,
    /// The client asks for GSSAPI encryption; answered `N` as well.
    GssRequest,
    Cancel,
    /// A protocol 3 startup: the session can begin.
    Startup,
    /// A version or code that this service does not speak.
    Unsupported,
}

/// The outcome of reading the startup packet.
#[derive(Clone, Copy, Debug, PartialEq, Eq, Structural)]
pub enum StartupParse {
    Incomplete,
    Malformed,
    Packet(StartupKind, usize),
}

pub open spec fn startup_kind(code: u32) -> StartupKind {
    if code == SSL_REQUEST_CODE {
        StartupKind::SslRequest
    } else if code == GSS_REQUEST_CODE {
        StartupKind::GssRequest
    } else if code == CANCEL_REQUEST_CODE {
        StartupKind::Cancel
    } else if code == PROTOCOL_V3 {
        StartupKind::Startup
    } else {
        StartupKind::Unsupported
    }
}

/// A startup packet: a length that counts itself, a code, and the rest.
pub open spec fn startup_spec(b: Seq<u8>) -> StartupParse {
    if b.len() < 8 {
        StartupParse::Incomplete
    } else if u32_at(b, 0) < 8 {
        StartupParse::Malformed
    } else if b.len() < u32_at(b, 0) {
        StartupParse::Incomplete
    } else {
        StartupParse::Packet(startup_kind(u32_at(b, 4)), u32_at(b, 0) as usize)
    }
}

/// Reads the startup packet from the front of `b`.
pub fn parse_startup(b: &[u8]) -> (r: StartupParse)
    ensures
        r == startup_spec(b@),
{
    if b.len() < 8 {
        return StartupParse::Incomplete;
    }
    let len = get_u32(b, 0);
    if len < 8 {
        return StartupParse::Malformed;
    }
    if (b.len() as u64) < len as u64 {
        return StartupParse::Incomplete;
    }
    let code = get_u32(b, 4);
    let kind = if code == SSL_REQUEST_CODE {
        StartupKind::SslRequest
    } else if code == GSS_REQUEST_CODE {
        StartupKind::GssRequest
    } else if code == CANCEL_REQUEST_CODE {
        StartupKind::Cancel
    } else if code == PROTOCOL_V3 {
        StartupKind::Startup
    } else {
        StartupKind::Unsupported
    };
    StartupParse::Packet(kind, len as usize)
}

} // verus!
