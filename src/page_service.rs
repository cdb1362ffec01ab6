//! The page service's replies and the decisions it makes between the wire
//! and the repository: which rows a verb answers with, which LSN a base
//! backup is taken at, which horizon GC runs with, and how a copy stream is
//! cut into `CopyData` messages.
use vstd::prelude::*;
use crate::command::{Command, CommandError, CommandModel, parse_command, parse_command_spec, result_view};
use crate::config::PageServerConf;
use crate::ids::{ZTenantId, hex_digits};
use crate::lsn::Lsn;
use crate::pagestream::{PagestreamError, PagestreamFeMessage, parse_request_spec};
use crate::pq_proto::{BeMessage, FeMessage, RowDescriptor, INT8_OID, TEXT_OID};
use crate::registry::{RegistryError, TenantRegistry};
use crate::text::{ascii, ascii_of};

verus! {

/// Serves the queries of one client connection.
pub struct PageServerHandler<'a> {
    pub conf: &'a PageServerConf,
}

impl<'a> PageServerHandler<'a> {
    pub fn new(conf: &'a PageServerConf) -> (r: Self)
        ensures
            r.conf == conf,
    {
        PageServerHandler { conf }
    }

    /// Parses a simple query.
    pub fn parse_query(&self, query: &[u8]) -> (r: Result<Command, CommandError>)
        ensures
            result_view(r) == parse_command_spec(query@),
    {
        parse_command(query)
    }

    /// The horizon that `do_gc` runs with: the one given, else the
    /// configured default.
    pub fn gc_horizon(&self, requested: Option<u64>) -> (r: u64)
        ensures
            r == match requested {
                Some(h) => h,
                None => self.conf.gc_horizon,
            },
    {
        match requested {
            Some(h) => h,
            None => self.conf.gc_horizon,
        }
    }

    /// The replies of the verbs that need nothing but the query:
    /// `controlfile`, `status` and `set`.
    pub fn immediate_reply(&self, cmd: &Command) -> (r: Option<Vec<BeMessage>>)
        ensures
            r is Some <==> (cmd@ is ControlFile || cmd@ is Status || cmd@ is SetVariable),
            cmd@ is SetVariable ==> (r matches Some(ms) && ms@.len() == 1 && ms@[0] is CommandComplete
                && ms@[0]->CommandComplete_0@ == select_one()),
            (cmd@ is ControlFile || cmd@ is Status) ==> (r matches Some(ms) && ms@.len() == 3
                && is_single_text_column(ms@[0]) && is_one_value_row(
                ms@[1],
                if cmd@ is Status {
                    ascii_of("hello world"@)
                } else {
                    ascii_of("hello pg_control"@)
                },
            ) && ms@[2] is CommandComplete && ms@[2]->CommandComplete_0@ == select_one()),
    {
        match cmd {
            Command::ControlFile => {
                let mut v: Vec<BeMessage> = Vec::new();
                v.push(single_col_rowdesc());
                v.push(control_file_row());
                v.push(command_complete());
                Some(v)
            },
            Command::Status => {
                let mut v: Vec<BeMessage> = Vec::new();
                v.push(single_col_rowdesc());
                v.push(hello_world_row());
                v.push(command_complete());
                Some(v)
            },
            Command::SetVariable => {
                let mut v: Vec<BeMessage> = Vec::new();
                v.push(command_complete());
                Some(v)
            },
            _ => None,
        }
    }
}

/// The LSN that a base backup is taken at: the one requested, else the
/// timeline's last valid LSN.
pub fn basebackup_lsn(requested: Option<Lsn>, last_valid: Lsn) -> (r: Lsn)
    ensures
        r == match requested {
            Some(l) => l,
            None => last_valid,
        },
{
    match requested {
        Some(l) => l,
        None => last_valid,
    }
}

pub open spec fn select_one() -> Seq<u8> {
    ascii_of("SELECT 1"@)
}

/// A description of one text column named `data`.
pub open spec fn is_single_text_column(m: BeMessage) -> bool {
    m matches BeMessage::RowDescription(ds) && ds@.len() == 1 && ds@[0].name@ == ascii_of("data"@)
        && ds@[0].typoid == TEXT_OID && ds@[0].typlen == 0xFFFF
}

/// A row of one non-null value.
pub open spec fn is_one_value_row(m: BeMessage, v: Seq<u8>) -> bool {
    m matches BeMessage::DataRow(vs) && vs@.len() == 1 && vs@[0] is Some && vs@[0]->Some_0@ == v
}

/// `CommandComplete` with the tag `SELECT 1`.
pub fn command_complete() -> (r: BeMessage)
    ensures
        r matches BeMessage::CommandComplete(t) && t@ == select_one(),
{
    proof {
        reveal_strlit("SELECT 1");
    }
    BeMessage::CommandComplete(text(ascii("SELECT 1")))
}

fn text(s: &[u8]) -> (r: Vec<u8>)
    ensures
        r@ == s@,
{
    crate::text::copy_range(s, 0, s.len())
}

/// The description of a single text column named `data`.
pub fn single_col_rowdesc() -> (r: BeMessage)
    ensures
        is_single_text_column(r),
{
    proof {
        reveal_strlit("data");
    }
    let mut ds: Vec<RowDescriptor> = Vec::new();
    ds.push(
        RowDescriptor {
            name: text(ascii("data")),
            tableoid: 0,
            attnum: 0,
            typoid: TEXT_OID,
            typlen: 0xFFFF,
            typmod: 0,
            formatcode: 0,
        },
    );
    BeMessage::RowDescription(ds)
}

fn one_value_row(v: Vec<u8>) -> (r: BeMessage)
    ensures
        r matches BeMessage::DataRow(vs) && vs@.len() == 1 && vs@[0] is Some && vs@[0]->Some_0@ == v@,
{
    let mut vs: Vec<Option<Vec<u8>>> = Vec::new();
    vs.push(Some(v));
    BeMessage::DataRow(vs)
}

/// The row that `status` answers with.
pub fn hello_world_row() -> (r: BeMessage)
    ensures
        r matches BeMessage::DataRow(vs) && vs@.len() == 1 && vs@[0] is Some && vs@[0]->Some_0@
            == ascii_of("hello world"@),
{
    proof {
        reveal_strlit("hello world");
    }
    one_value_row(text(ascii("hello world")))
}

/// The row that `controlfile` answers with.
pub fn control_file_row() -> (r: BeMessage)
    ensures
        r matches BeMessage::DataRow(vs) && vs@.len() == 1 && vs@[0] is Some && vs@[0]->Some_0@
            == ascii_of("hello pg_control"@),
{
    proof {
        reveal_strlit("hello pg_control");
    }
    one_value_row(text(ascii("hello pg_control")))
}

/// A reply of one JSON document in a single row.
pub fn json_row_reply(json: Vec<u8>) -> (r: Vec<BeMessage>)
    ensures
        r@.len() == 3,
        is_single_text_column(r@[0]),
        r@[1] matches BeMessage::DataRow(vs) && vs@.len() == 1 && vs@[0] is Some && vs@[0]->Some_0@ == json@,
        r@[2] matches BeMessage::CommandComplete(t) && t@ == select_one(),
{
    let mut v: Vec<BeMessage> = Vec::new();
    v.push(single_col_rowdesc());
    v.push(one_value_row(json));
    v.push(command_complete());
    v
}

/// The counters of one GC iteration.
#[derive(Clone, Copy, Debug, PartialEq, Eq, Structural)]
pub struct GcResult {
    pub n_relations: u64,
    pub truncated: u64,
    pub deleted: u64,
    pub prep_deleted: u64,
    pub slru_deleted: u64,
    pub chkp_deleted: u64,
    pub dropped: u64,
    /// Elapsed time in milliseconds.
    pub elapsed: u64,
}

/// The decimal digits of `v`, most significant first, without leading zeros.
pub open spec fn dec_digits(v: nat) -> Seq<u8>
    decreases v,
{
    if v < 10 {
        seq![(48 + v) as u8]
    } else {
        dec_digits(v / 10).push((48 + v % 10) as u8)
    }
}

/// Writes `v` in decimal.
pub fn format_dec_u64(v: u64) -> (r: Vec<u8>)
    ensures
        r@ == dec_digits(v as nat),
{
    let mut r: Vec<u8> = Vec::new();
    let mut w: u64 = v;
    while w >= 10
        invariant
            dec_digits(v as nat) == dec_digits(w as nat) + r@,
        decreases w,
    {
        let c: u8 = 48 + (w % 10) as u8;
        let ghost head = dec_digits((w / 10) as nat);
        assert(dec_digits(w as nat) == head.push(c));
        let ghost before = r@;
        r.insert(0, c);
        assert(head.push(c) + before =~= head + r@);
        w = w / 10;
    }
    let ghost before = r@;
    r.insert(0, 48 + w as u8);
    assert(dec_digits(w as nat) + before =~= r@);
    r
}

/// The names of the columns that `do_gc` answers with, in order.
pub open spec fn gc_column_names() -> Seq<Seq<u8>> {
    seq![
        ascii_of("n_relations"@),
        ascii_of("truncated"@),
        ascii_of("deleted"@),
        ascii_of("prep_deleted"@),
        ascii_of("slru_deleted"@),
        ascii_of("chkp_deleted"@),
        ascii_of("dropped"@),
        ascii_of("elapsed"@),
    ]
}

pub open spec fn gc_values(g: GcResult) -> Seq<u64> {
    seq![
        g.n_relations,
        g.truncated,
        g.deleted,
        g.prep_deleted,
        g.slru_deleted,
        g.chkp_deleted,
        g.dropped,
        g.elapsed,
    ]
}

fn int8_column(name: &str) -> (r: RowDescriptor)
    requires
        vstd::string::is_ascii(name),
    ensures
        r.name@ == ascii_of(name@),
        r.typoid == INT8_OID,
        r.typlen == 8,
{
    RowDescriptor {
        name: text(ascii(name)),
        tableoid: 0,
        attnum: 0,
        typoid: INT8_OID,
        typlen: 8,
        typmod: 0,
        formatcode: 0,
    }
}

/// The reply to `do_gc`: eight `int8` columns, one row of their values in
/// decimal, and `CommandComplete`.
pub fn gc_reply(g: &GcResult) -> (r: Vec<BeMessage>)
    ensures
        r@.len() == 3,
        r@[0] matches BeMessage::RowDescription(ds) && ds@.len() == 8 && (forall|i: int|
            0 <= i < 8 ==> (#[trigger] ds@[i]).name@ == gc_column_names()[i] && ds@[i].typoid
                == INT8_OID && ds@[i].typlen == 8),
        r@[1] matches BeMessage::DataRow(vs) && vs@.len() == 8 && (forall|i: int|
            0 <= i < 8 ==> (#[trigger] vs@[i] is Some && vs@[i]->Some_0@ == dec_digits(
                gc_values(*g)[i] as nat,
            ))),
        r@[2] matches BeMessage::CommandComplete(t) && t@ == select_one(),
{
    proof {
        reveal_strlit("n_relations");
        reveal_strlit("truncated");
        reveal_strlit("deleted");
        reveal_strlit("prep_deleted");
        reveal_strlit("slru_deleted");
        reveal_strlit("chkp_deleted");
        reveal_strlit("dropped");
        reveal_strlit("elapsed");
    }
    let mut ds: Vec<RowDescriptor> = Vec::new();
    ds.push(int8_column("n_relations"));
    ds.push(int8_column("truncated"));
    ds.push(int8_column("deleted"));
    ds.push(int8_column("prep_deleted"));
    ds.push(int8_column("slru_deleted"));
    ds.push(int8_column("chkp_deleted"));
    ds.push(int8_column("dropped"));
    ds.push(int8_column("elapsed"));
    let mut vs: Vec<Option<Vec<u8>>> = Vec::new();
    vs.push(Some(format_dec_u64(g.n_relations)));
    vs.push(Some(format_dec_u64(g.truncated)));
    vs.push(Some(format_dec_u64(g.deleted)));
    vs.push(Some(format_dec_u64(g.prep_deleted)));
    vs.push(Some(format_dec_u64(g.slru_deleted)));
    vs.push(Some(format_dec_u64(g.chkp_deleted)));
    vs.push(Some(format_dec_u64(g.dropped)));
    vs.push(Some(format_dec_u64(g.elapsed)));
    let mut r: Vec<BeMessage> = Vec::new();
    r.push(BeMessage::RowDescription(ds));
    r.push(BeMessage::DataRow(vs));
    r.push(command_complete());
    r
}

/// A byte that JSON writes as itself inside a string: printable ASCII
/// other than `"` and `\\`.
pub open spec fn json_plain(c: u8) -> bool {
    32 <= c <= 126 && c != 34 && c != 92
}

pub open spec fn json_quoted(s: Seq<u8>) -> Seq<u8> {
    seq![34u8] + s + seq![34u8]
}

pub open spec fn json_items(items: Seq<Seq<u8>>) -> Seq<u8>
    decreases items.len(),
{
    if items.len() == 0 {
        Seq::empty()
    } else if items.len() == 1 {
        json_quoted(items[0])
    } else {
        json_items(items.drop_last()) + seq![44u8] + json_quoted(items.last())
    }
}

/// The compact JSON array of the given strings.
pub open spec fn json_string_array(items: Seq<Seq<u8>>) -> Seq<u8> {
    seq![91u8] + json_items(items) + seq![93u8]
}

pub open spec fn items_view(items: Seq<Vec<u8>>) -> Seq<Seq<u8>> {
    items.map_values(|v: Vec<u8>| v@)
}

/// Relies on serde_json::to_vec: a `Vec<String>` becomes a compact JSON
/// array of strings, and a string of bytes that need no escape is written
/// between quotes as it is. Writing strings into a `Vec` cannot fail.
#[verifier::external_body]
fn to_json_string_array(items: &Vec<Vec<u8>>) -> (r: Option<Vec<u8>>)
    requires
        forall|i: int, j: int|
            0 <= i < items@.len() && 0 <= j < items@[i]@.len() ==> json_plain(#[trigger] items@[i]@[j]),
    ensures
        r is Some,
        r matches Some(b) ==> b@ == json_string_array(items_view(items@)),
{
    let strings: Vec<String> = items.iter().map(|i| String::from_utf8_lossy(i).into_owned()).collect();
    serde_json::to_vec(&strings).ok()
}

proof fn lemma_hex_digits_plain(v: nat, n: nat)
    ensures
        forall|j: int| 0 <= j < hex_digits(v, n).len() ==> json_plain(#[trigger] hex_digits(v, n)[j]),
    decreases n,
{
    if n > 0 {
        lemma_hex_digits_plain(v / 16, (n - 1) as nat);
        let head = hex_digits(v / 16, (n - 1) as nat);
        assert forall|j: int| 0 <= j < hex_digits(v, n).len() implies json_plain(
            #[trigger] hex_digits(v, n)[j],
        ) by {
            if j < head.len() {
                assert(hex_digits(v, n)[j] == head[j]);
            } else {
                assert(hex_digits(v, n)[j] == crate::ids::hex_char(v % 16));
            }
        }
    }
}

/// The canonical forms of the given tenants, as a JSON array.
pub fn tenants_json(tenants: &Vec<ZTenantId>) -> (r: Option<Vec<u8>>)
    ensures
        r is Some,
        r matches Some(b) ==> b@ == json_string_array(
            tenants@.map_values(|t: ZTenantId| hex_digits(t.id as nat, 32)),
        ),
{
    let mut items: Vec<Vec<u8>> = Vec::new();
    let mut i: usize = 0;
    while i < tenants.len()
        invariant
            i <= tenants@.len(),
            items@.len() == i,
            items_view(items@) == tenants@.subrange(0, i as int).map_values(
                |t: ZTenantId| hex_digits(t.id as nat, 32),
            ),
            forall|a: int, j: int|
                0 <= a < items@.len() && 0 <= j < items@[a]@.len() ==> json_plain(#[trigger] items@[a]@[j]),
        decreases tenants@.len() - i,
    {
        let h = tenants[i].to_hex();
        proof {
            lemma_hex_digits_plain(tenants@[i as int].id as nat, 32);
        }
        let ghost before = items@;
        items.push(h);
        assert(items@[i as int]@ == hex_digits(tenants@[i as int].id as nat, 32));
        let ghost f = |t: ZTenantId| hex_digits(t.id as nat, 32);
        assert forall|k: int| 0 <= k <= i implies #[trigger] items_view(items@)[k]
            == tenants@.subrange(0, i + 1).map_values(f)[k] by {
            if k < i {
                assert(items@[k] == before[k]);
                assert(items_view(before)[k] == tenants@.subrange(0, i as int).map_values(f)[k]);
            }
        }
        i += 1;
        assert(items_view(items@) =~= tenants@.subrange(0, i as int).map_values(f));
    }
    assert(tenants@.subrange(0, i as int) =~= tenants@);
    to_json_string_array(&items)
}

/// The largest payload of one `CopyData` message in a copy-out stream.
pub const COPY_CHUNK: usize = 65536;

pub open spec fn flatten(chunks: Seq<Seq<u8>>) -> Seq<u8>
    decreases chunks.len(),
{
    if chunks.len() == 0 {
        Seq::empty()
    } else {
        flatten(chunks.drop_last()) + chunks.last()
    }
}

/// Cuts a stream write into `CopyData` payloads of at most 64 KiB each,
/// none empty, that together are the data.
pub fn copy_data_chunks(data: &[u8]) -> (r: Vec<Vec<u8>>)
    ensures
        flatten(items_view(r@)) == data@,
        forall|i: int| 0 <= i < r@.len() ==> 0 < (#[trigger] r@[i])@.len() <= COPY_CHUNK,
{
    let mut r: Vec<Vec<u8>> = Vec::new();
    let mut start: usize = 0;
    while start < data.len()
        invariant
            start <= data@.len(),
            flatten(items_view(r@)) == data@.subrange(0, start as int),
            forall|i: int| 0 <= i < r@.len() ==> 0 < (#[trigger] r@[i])@.len() <= COPY_CHUNK,
        decreases data@.len() - start,
    {
        let end: usize = if data.len() - start > COPY_CHUNK {
            start + COPY_CHUNK
        } else {
            data.len()
        };
        let chunk = crate::text::copy_range(data, start, end);
        let ghost before = r@;
        r.push(chunk);
        assert(items_view(r@).drop_last() =~= items_view(before));
        assert(flatten(items_view(r@)) =~= data@.subrange(0, end as int));
        start = end;
    }
    assert(data@.subrange(0, data@.len() as int) =~= data@);
    r
}

/// What one client message means inside a pagestream session.
#[derive(Clone, Copy, Debug)]
pub enum PagestreamStep {
    /// A request to serve.
    Serve(PagestreamFeMessage),
    /// Not `CopyData`: ignored, the queue does not advance.
    Ignore,
    /// The payload is no request: the session ends with this error.
    Fail(PagestreamError),
}

/// Classifies a client message inside a pagestream session.
pub fn pagestream_step(msg: &FeMessage) -> (r: PagestreamStep)
    ensures
        match msg@ {
            crate::pq_proto::FeModel::CopyData(b) => match parse_request_spec(b) {
                Ok(m) => r == PagestreamStep::Serve(m),
                Err(e) => r == PagestreamStep::Fail(e),
            },
            _ => r == PagestreamStep::Ignore,
        },
{
    match msg {
        FeMessage::CopyData(b) => match PagestreamFeMessage::parse(b.as_slice()) {
            Ok(m) => PagestreamStep::Serve(m),
            Err(e) => PagestreamStep::Fail(e),
        },
        _ => PagestreamStep::Ignore,
    }
}

/// Any query that starts with `set ` (in any letter case) is accepted and
/// answered with `CommandComplete` alone.
pub proof fn lemma_set_always_completes(q: Seq<u8>)
    requires
        vstd::utf8::valid_utf8(crate::command::strip_nul(q)),
        crate::command::set_prefix(crate::command::strip_nul(q)),
    ensures
        parse_command_spec(q) == Ok::<CommandModel, CommandError>(CommandModel::SetVariable),
{
    let s = crate::command::strip_nul(q);
    reveal_strlit("controlfile");
    reveal_strlit("pagestream ");
    reveal_strlit("basebackup ");
    reveal_strlit("callmemaybe ");
    reveal_strlit("branch_create ");
    reveal_strlit("push ");
    reveal_strlit("request_push ");
    reveal_strlit("branch_list ");
    reveal_strlit("tenant_list");
    reveal_strlit("tenant_create");
    reveal_strlit("status");
    assert(!crate::text::has_prefix_spec(s, crate::command::controlfile_verb())) by {
        if crate::text::has_prefix_spec(s, crate::command::controlfile_verb()) {
            assert(s.subrange(0, 11)[0] == s[0]);
        }
    }
    assert(!crate::text::has_prefix_spec(s, crate::command::pagestream_verb())) by {
        if crate::text::has_prefix_spec(s, crate::command::pagestream_verb()) {
            assert(s.subrange(0, 11)[0] == s[0]);
        }
    }
    assert(!crate::text::has_prefix_spec(s, crate::command::basebackup_verb())) by {
        if crate::text::has_prefix_spec(s, crate::command::basebackup_verb()) {
            assert(s.subrange(0, 11)[0] == s[0]);
        }
    }
    assert(!crate::text::has_prefix_spec(s, crate::command::callmemaybe_verb())) by {
        if crate::text::has_prefix_spec(s, crate::command::callmemaybe_verb()) {
            assert(s.subrange(0, 12)[0] == s[0]);
        }
    }
    assert(!crate::text::has_prefix_spec(s, crate::command::branch_create_verb())) by {
        if crate::text::has_prefix_spec(s, crate::command::branch_create_verb()) {
            assert(s.subrange(0, 14)[0] == s[0]);
        }
    }
    assert(!crate::text::has_prefix_spec(s, crate::command::push_verb())) by {
        if crate::text::has_prefix_spec(s, crate::command::push_verb()) {
            assert(s.subrange(0, 5)[0] == s[0]);
        }
    }
    assert(!crate::text::has_prefix_spec(s, crate::command::request_push_verb())) by {
        if crate::text::has_prefix_spec(s, crate::command::request_push_verb()) {
            assert(s.subrange(0, 13)[0] == s[0]);
        }
    }
    assert(!crate::text::has_prefix_spec(s, crate::command::branch_list_verb())) by {
        if crate::text::has_prefix_spec(s, crate::command::branch_list_verb()) {
            assert(s.subrange(0, 12)[0] == s[0]);
        }
    }
    assert(!crate::text::has_prefix_spec(s, crate::command::tenant_list_verb())) by {
        if crate::text::has_prefix_spec(s, crate::command::tenant_list_verb()) {
            assert(s.subrange(0, 11)[0] == s[0]);
        }
    }
    assert(!crate::text::has_prefix_spec(s, crate::command::tenant_create_verb())) by {
        if crate::text::has_prefix_spec(s, crate::command::tenant_create_verb()) {
            assert(s.subrange(0, 13)[0] == s[0]);
        }
    }
    assert(!crate::text::has_prefix_spec(s, crate::command::status_verb())) by {
        if crate::text::has_prefix_spec(s, crate::command::status_verb()) {
            assert(s.subrange(0, 6)[1] == s[1]);
        }
    }
}

/// The tenant that a command works on and that must be registered before
/// it runs; `tenant_create` registers its tenant and so needs none.
pub open spec fn required_tenant(c: CommandModel) -> Option<ZTenantId> {
    match c {
        CommandModel::Pagestream { tenant, .. } => Some(tenant),
        CommandModel::Basebackup { tenant, .. } => Some(tenant),
        CommandModel::Callmemaybe { tenant, .. } => Some(tenant),
        CommandModel::BranchCreate { tenant, .. } => Some(tenant),
        CommandModel::Push { tenant, .. } => Some(tenant),
        CommandModel::RequestPush { tenant, .. } => Some(tenant),
        CommandModel::BranchList { tenant } => Some(tenant),
        CommandModel::DoGc { tenant, .. } => Some(tenant),
        _ => None,
    }
}

/// Refuses, before any work is done, a command whose tenant is not
/// registered.
pub fn check_tenant<R>(reg: &TenantRegistry<R>, cmd: &Command) -> (r: Result<(), RegistryError>)
    ensures
        r is Err <==> (required_tenant(cmd@) matches Some(t) && !reg.tenants().contains(t)),
        r is Err ==> r == Err::<(), RegistryError>(RegistryError::NotFound),
{
    let tenant = match cmd {
        Command::Pagestream { tenant, .. } => *tenant,
        Command::Basebackup { tenant, .. } => *tenant,
        Command::Callmemaybe { tenant, .. } => *tenant,
        Command::BranchCreate { tenant, .. } => *tenant,
        Command::Push { tenant, .. } => *tenant,
        Command::RequestPush { tenant, .. } => *tenant,
        Command::BranchList { tenant } => *tenant,
        Command::DoGc { tenant, .. } => *tenant,
        _ => return Ok(()),
    };
    if reg.contains(tenant) {
        Ok(())
    } else {
        Err(RegistryError::NotFound)
    }
}

proof fn lemma_hex_digits_value(v: nat, n: nat)
    requires
        v < crate::text::pow16(n),
    ensures
        crate::text::all_hex(hex_digits(v, n)),
        crate::text::hex_value(hex_digits(v, n)) == v,
        hex_digits(v, n).len() == n,
    decreases n,
{
    if n == 0 {
        assert(crate::text::pow16(0) == 1);
    } else {
        let q = v / 16;
        assert(q < crate::text::pow16((n - 1) as nat)) by (nonlinear_arith)
            requires
                v < crate::text::pow16(n),
                crate::text::pow16(n) == 16 * crate::text::pow16((n - 1) as nat),
                q == v / 16,
        ;
        lemma_hex_digits_value(q, (n - 1) as nat);
        let head = hex_digits(q, (n - 1) as nat);
        let c = crate::ids::hex_char(v % 16);
        let s = hex_digits(v, n);
        assert(s == head.push(c));
        assert(s.drop_last() =~= head);
        assert(crate::text::hex_digit_value(c) == v % 16);
        assert(v == q * 16 + v % 16);
        assert forall|j: int| 0 <= j < s.len() implies crate::text::is_hex_digit(#[trigger] s[j]) by {
            if j < head.len() {
                assert(s[j] == head[j]);
            }
        }
    }
}

/// The canonical form of a tenant, 32 lowercase hexadecimal digits, reads
/// back as the same tenant.
pub proof fn lemma_tenant_hex_round_trip(t: ZTenantId)
    ensures
        crate::command::tenant_of(hex_digits(t.id as nat, 32)) == Some(t),
{
    crate::text::lemma_pow16_32();
    lemma_hex_digits_value(t.id as nat, 32);
}

} // verus!
