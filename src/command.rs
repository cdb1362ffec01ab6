//! The simple-query command grammar: which verb a query names and the
//! arguments it carries.
use vstd::prelude::*;
use crate::ids::{ZTenantId, ZTimelineId};
use crate::lsn::{Lsn, find_byte, find_byte_from, lemma_find_byte_found, lsn_of_text};
use crate::text::{
    all_dec, all_hex, ascii, ascii_of, copy_range, dec_value, has_prefix, has_prefix_spec,
    hex_value, is_dec_digit, is_hex_digit, parse_dec_u64,
};

verus! {

/// A parsed simple query.
#[derive(Clone, Debug)]
pub enum Command {
    ControlFile,
    Pagestream { tenant: ZTenantId, timeline: ZTimelineId },
    Basebackup { tenant: ZTenantId, timeline: ZTimelineId, lsn: Option<Lsn> },
    Callmemaybe { tenant: ZTenantId, timeline: ZTimelineId, connstr: Vec<u8> },
    BranchCreate { tenant: ZTenantId, name: Vec<u8>, startpoint: Vec<u8> },
    Push { tenant: ZTenantId, timeline: ZTimelineId },
    RequestPush { tenant: ZTenantId, timeline: ZTimelineId, connstr: Vec<u8> },
    BranchList { tenant: ZTenantId },
    TenantList,
    TenantCreate { tenant: ZTenantId },
    Status,
    SetVariable,
    DoGc { tenant: ZTenantId, timeline: ZTimelineId, horizon: Option<u64> },
}

/// What a `Command` says, with its free text as byte sequences.
pub ghost enum CommandModel {
    ControlFile,
    Pagestream { tenant: ZTenantId, timeline: ZTimelineId },
    Basebackup { tenant: ZTenantId, timeline: ZTimelineId, lsn: Option<Lsn> },
    Callmemaybe { tenant: ZTenantId, timeline: ZTimelineId, connstr: Seq<u8> },
    BranchCreate { tenant: ZTenantId, name: Seq<u8>, startpoint: Seq<u8> },
    Push { tenant: ZTenantId, timeline: ZTimelineId },
    RequestPush { tenant: ZTenantId, timeline: ZTimelineId, connstr: Seq<u8> },
    BranchList { tenant: ZTenantId },
    TenantList,
    TenantCreate { tenant: ZTenantId },
    Status,
    SetVariable,
    DoGc { tenant: ZTenantId, timeline: ZTimelineId, horizon: Option<u64> },
}

/// Why a query was refused.
#[derive(Clone, Copy, Debug, PartialEq, Eq, Structural)]
pub enum CommandError {
    /// The query is not UTF-8 text.
    InvalidUtf8,
    /// No verb matches the query.
    UnknownCommand,
    /// The verb is known but its arguments do not fit its grammar.
    InvalidArguments,
    /// A tenant or timeline identifier is not 32 hexadecimal digits.
    InvalidId,
    /// The LSN argument is not of the form `X/Y`.
    InvalidLsn,
    /// The GC horizon does not fit in 64 bits.
    InvalidHorizon,
}

impl Command {
    pub open spec fn view(self) -> CommandModel {
        match self {
            Command::ControlFile => CommandModel::ControlFile,
            Command::Pagestream { tenant, timeline } => CommandModel::Pagestream { tenant, timeline },
            Command::Basebackup { tenant, timeline, lsn } => CommandModel::Basebackup {
                tenant,
                timeline,
                lsn,
            },
            Command::Callmemaybe { tenant, timeline, connstr } => CommandModel::Callmemaybe {
                tenant,
                timeline,
                connstr: connstr@,
            },
            Command::BranchCreate { tenant, name, startpoint } => CommandModel::BranchCreate {
                tenant,
                name: name@,
                startpoint: startpoint@,
            },
            Command::Push { tenant, timeline } => CommandModel::Push { tenant, timeline },
            Command::RequestPush { tenant, timeline, connstr } => CommandModel::RequestPush {
                tenant,
                timeline,
                connstr: connstr@,
            },
            Command::BranchList { tenant } => CommandModel::BranchList { tenant },
            Command::TenantList => CommandModel::TenantList,
            Command::TenantCreate { tenant } => CommandModel::TenantCreate { tenant },
            Command::Status => CommandModel::Status,
            Command::SetVariable => CommandModel::SetVariable,
            Command::DoGc { tenant, timeline, horizon } => CommandModel::DoGc {
                tenant,
                timeline,
                horizon,
            },
        }
    }
}

pub open spec fn result_view(r: Result<Command, CommandError>) -> Result<CommandModel, CommandError> {
    match r {
        Ok(c) => Ok(c.view()),
        Err(e) => Err(e),
    }
}

/// The classes of bytes that the grammar's runs are made of.
#[derive(Clone, Copy, Debug, PartialEq, Eq, Structural)]
pub enum CharClass {
    Hex,
    Digit,
    /// Anything but ASCII whitespace.
    NonSpace,
    /// Anything but ASCII whitespace and `;`.
    Word,
    /// ASCII whitespace or `;`.
    SpaceOrSemi,
}

pub open spec fn is_ws(c: u8) -> bool {
    c == 32 || (9 <= c <= 13)
}

pub open spec fn in_class(c: u8, k: CharClass) -> bool {
    match k {
        CharClass::Hex => is_hex_digit(c),
        CharClass::Digit => is_dec_digit(c),
        CharClass::NonSpace => !is_ws(c),
        CharClass::Word => !is_ws(c) && c != 59,
        CharClass::SpaceOrSemi => is_ws(c) || c == 59,
    }
}

/// The end of the longest run of class `k` that starts at `i`.
pub open spec fn run_end(s: Seq<u8>, i: int, k: CharClass) -> int
    decreases s.len() - i,
{
    if i < 0 || i >= s.len() || !in_class(s[i], k) {
        i
    } else {
        run_end(s, i + 1, k)
    }
}

fn class_has(c: u8, k: CharClass) -> (r: bool)
    ensures
        r == in_class(c, k),
{
    let ws = c == 32 || (9 <= c && c <= 13);
    match k {
        CharClass::Hex => (48 <= c && c <= 57) || (97 <= c && c <= 102) || (65 <= c && c <= 70),
        CharClass::Digit => 48 <= c && c <= 57,
        CharClass::NonSpace => !ws,
        CharClass::Word => !ws && c != 59,
        CharClass::SpaceOrSemi => ws || c == 59,
    }
}

fn find_run_end(s: &[u8], i: usize, k: CharClass) -> (r: usize)
    requires
        i <= s@.len(),
    ensures
        r as int == run_end(s@, i as int, k),
        i <= r <= s@.len(),
        forall|j: int| i <= j < r ==> in_class(#[trigger] s@[j], k),
{
    let mut j: usize = i;
    while j < s.len() && class_has(s[j], k)
        invariant
            i <= j <= s@.len(),
            run_end(s@, i as int, k) == run_end(s@, j as int, k),
            forall|t: int| i <= t < j ==> in_class(#[trigger] s@[t], k),
        decreases s@.len() - j,
    {
        j += 1;
    }
    j
}

pub open spec fn strip_nul(q: Seq<u8>) -> Seq<u8> {
    if q.len() > 0 && q.last() == 0 {
        q.drop_last()
    } else {
        q
    }
}

pub open spec fn tenant_of(t: Seq<u8>) -> Option<ZTenantId> {
    if t.len() == 32 && all_hex(t) {
        Some(ZTenantId { id: hex_value(t) as u128 })
    } else {
        None
    }
}

pub open spec fn timeline_of(t: Seq<u8>) -> Option<ZTimelineId> {
    if t.len() == 32 && all_hex(t) {
        Some(ZTimelineId { id: hex_value(t) as u128 })
    } else {
        None
    }
}

fn tenant_in(s: &[u8], a: usize, b: usize) -> (r: Option<ZTenantId>)
    requires
        a <= b <= s@.len(),
    ensures
        r == tenant_of(s@.subrange(a as int, b as int)),
{
    let t = copy_range(s, a, b);
    ZTenantId::from_hex(t.as_slice())
}

fn timeline_in(s: &[u8], a: usize, b: usize) -> (r: Option<ZTimelineId>)
    requires
        a <= b <= s@.len(),
    ensures
        r == timeline_of(s@.subrange(a as int, b as int)),
{
    let t = copy_range(s, a, b);
    ZTimelineId::from_hex(t.as_slice())
}

pub open spec fn controlfile_verb() -> Seq<u8> {
    ascii_of("controlfile"@)
}

fn controlfile_lit() -> (b: &'static [u8])
    ensures
        b@ == controlfile_verb(),
{
    proof {
        reveal_strlit("controlfile");
    }
    ascii("controlfile")
}

pub open spec fn pagestream_verb() -> Seq<u8> {
    ascii_of("pagestream "@)
}

fn pagestream_lit() -> (b: &'static [u8])
    ensures
        b@ == pagestream_verb(),
{
    proof {
        reveal_strlit("pagestream ");
    }
    ascii("pagestream ")
}

pub open spec fn basebackup_verb() -> Seq<u8> {
    ascii_of("basebackup "@)
}

fn basebackup_lit() -> (b: &'static [u8])
    ensures
        b@ == basebackup_verb(),
{
    proof {
        reveal_strlit("basebackup ");
    }
    ascii("basebackup ")
}

pub open spec fn callmemaybe_verb() -> Seq<u8> {
    ascii_of("callmemaybe "@)
}

fn callmemaybe_lit() -> (b: &'static [u8])
    ensures
        b@ == callmemaybe_verb(),
{
    proof {
        reveal_strlit("callmemaybe ");
    }
    ascii("callmemaybe ")
}

pub open spec fn branch_create_verb() -> Seq<u8> {
    ascii_of("branch_create "@)
}

fn branch_create_lit() -> (b: &'static [u8])
    ensures
        b@ == branch_create_verb(),
{
    proof {
        reveal_strlit("branch_create ");
    }
    ascii("branch_create ")
}

pub open spec fn push_verb() -> Seq<u8> {
    ascii_of("push "@)
}

fn push_lit() -> (b: &'static [u8])
    ensures
        b@ == push_verb(),
{
    proof {
        reveal_strlit("push ");
    }
    ascii("push ")
}

pub open spec fn request_push_verb() -> Seq<u8> {
    ascii_of("request_push "@)
}

fn request_push_lit() -> (b: &'static [u8])
    ensures
        b@ == request_push_verb(),
{
    proof {
        reveal_strlit("request_push ");
    }
    ascii("request_push ")
}

pub open spec fn branch_list_verb() -> Seq<u8> {
    ascii_of("branch_list "@)
}

fn branch_list_lit() -> (b: &'static [u8])
    ensures
        b@ == branch_list_verb(),
{
    proof {
        reveal_strlit("branch_list ");
    }
    ascii("branch_list ")
}

pub open spec fn tenant_list_verb() -> Seq<u8> {
    ascii_of("tenant_list"@)
}

fn tenant_list_lit() -> (b: &'static [u8])
    ensures
        b@ == tenant_list_verb(),
{
    proof {
        reveal_strlit("tenant_list");
    }
    ascii("tenant_list")
}

pub open spec fn tenant_create_verb() -> Seq<u8> {
    ascii_of("tenant_create"@)
}

fn tenant_create_lit() -> (b: &'static [u8])
    ensures
        b@ == tenant_create_verb(),
{
    proof {
        reveal_strlit("tenant_create");
    }
    ascii("tenant_create")
}

pub open spec fn status_verb() -> Seq<u8> {
    ascii_of("status"@)
}

fn status_lit() -> (b: &'static [u8])
    ensures
        b@ == status_verb(),
{
    proof {
        reveal_strlit("status");
    }
    ascii("status")
}

pub open spec fn do_gc_verb() -> Seq<u8> {
    ascii_of("do_gc "@)
}

fn do_gc_lit() -> (b: &'static [u8])
    ensures
        b@ == do_gc_verb(),
{
    proof {
        reveal_strlit("do_gc ");
    }
    ascii("do_gc ")
}
pub open spec fn rest_after(s: Seq<u8>, p: Seq<u8>) -> Seq<u8> {
    s.subrange(p.len() as int, s.len() as int)
}

/// `pagestream <tenant> <timeline>`: exactly two arguments separated by one space.
pub open spec fn pagestream_spec(s: Seq<u8>) -> Result<CommandModel, CommandError> {
    let rest = rest_after(s, pagestream_verb());
    let k = find_byte(rest, 32, 0);
    if k < 0 || find_byte(rest, 32, k + 1) >= 0 {
        Err(CommandError::InvalidArguments)
    } else {
        match (tenant_of(rest.subrange(0, k)), timeline_of(rest.subrange(k + 1, rest.len() as int))) {
            (Some(t), Some(l)) => Ok(CommandModel::Pagestream { tenant: t, timeline: l }),
            _ => Err(CommandError::InvalidId),
        }
    }
}

/// `basebackup <tenant> <timeline> [<lsn>]`: two or three arguments.
pub open spec fn basebackup_spec(s: Seq<u8>) -> Result<CommandModel, CommandError> {
    let rest = rest_after(s, basebackup_verb());
    let k1 = find_byte(rest, 32, 0);
    let k2 = find_byte(rest, 32, k1 + 1);
    if k1 < 0 || (k2 >= 0 && find_byte(rest, 32, k2 + 1) >= 0) {
        Err(CommandError::InvalidArguments)
    } else {
        let end1 = if k2 < 0 { rest.len() as int } else { k2 };
        match (tenant_of(rest.subrange(0, k1)), timeline_of(rest.subrange(k1 + 1, end1))) {
            (Some(t), Some(l)) => if k2 < 0 {
                Ok(CommandModel::Basebackup { tenant: t, timeline: l, lsn: None })
            } else {
                match lsn_of_text(rest.subrange(k2 + 1, rest.len() as int)) {
                    Some(x) => Ok(CommandModel::Basebackup { tenant: t, timeline: l, lsn: Some(x) }),
                    None => Err(CommandError::InvalidLsn),
                }
            },
            _ => Err(CommandError::InvalidId),
        }
    }
}

/// `<verb> <hex> <hex> <text>`, where the text holds no line feed.
pub open spec fn ids_and_text_spec(s: Seq<u8>, p: int) -> Result<
    (ZTenantId, ZTimelineId, Seq<u8>),
    CommandError,
> {
    let a = run_end(s, p, CharClass::Hex);
    let b = run_end(s, a + 1, CharClass::Hex);
    if !(a > p && a < s.len() && s[a] == 32) {
        Err(CommandError::InvalidArguments)
    } else if !(b > a + 1 && b < s.len() && s[b] == 32) {
        Err(CommandError::InvalidArguments)
    } else if find_byte(s.subrange(b + 1, s.len() as int), 10, 0) >= 0 {
        Err(CommandError::InvalidArguments)
    } else {
        match (tenant_of(s.subrange(p, a)), timeline_of(s.subrange(a + 1, b))) {
            (Some(t), Some(l)) => Ok((t, l, s.subrange(b + 1, s.len() as int))),
            _ => Err(CommandError::InvalidId),
        }
    }
}

/// `<verb> <hex> <hex>` and nothing after.
pub open spec fn two_ids_spec(s: Seq<u8>, p: int) -> Result<(ZTenantId, ZTimelineId), CommandError> {
    let a = run_end(s, p, CharClass::Hex);
    let b = run_end(s, a + 1, CharClass::Hex);
    if !(a > p && a < s.len() && s[a] == 32) {
        Err(CommandError::InvalidArguments)
    } else if !(b > a + 1 && b == s.len()) {
        Err(CommandError::InvalidArguments)
    } else {
        match (tenant_of(s.subrange(p, a)), timeline_of(s.subrange(a + 1, b))) {
            (Some(t), Some(l)) => Ok((t, l)),
            _ => Err(CommandError::InvalidId),
        }
    }
}

/// `<verb> <hex>` and nothing after.
pub open spec fn one_id_spec(s: Seq<u8>, p: int) -> Result<ZTenantId, CommandError> {
    let a = run_end(s, p, CharClass::Hex);
    if !(a > p && a == s.len()) {
        Err(CommandError::InvalidArguments)
    } else {
        match tenant_of(s.subrange(p, a)) {
            Some(t) => Ok(t),
            None => Err(CommandError::InvalidId),
        }
    }
}

pub open spec fn callmemaybe_spec(s: Seq<u8>) -> Result<CommandModel, CommandError> {
    match ids_and_text_spec(s, callmemaybe_verb().len() as int) {
        Ok((t, l, c)) => Ok(CommandModel::Callmemaybe { tenant: t, timeline: l, connstr: c }),
        Err(e) => Err(e),
    }
}

pub open spec fn request_push_spec(s: Seq<u8>) -> Result<CommandModel, CommandError> {
    match ids_and_text_spec(s, request_push_verb().len() as int) {
        Ok((t, l, c)) => Ok(CommandModel::RequestPush { tenant: t, timeline: l, connstr: c }),
        Err(e) => Err(e),
    }
}

pub open spec fn push_spec(s: Seq<u8>) -> Result<CommandModel, CommandError> {
    match two_ids_spec(s, push_verb().len() as int) {
        Ok((t, l)) => Ok(CommandModel::Push { tenant: t, timeline: l }),
        Err(e) => Err(e),
    }
}

pub open spec fn branch_list_spec(s: Seq<u8>) -> Result<CommandModel, CommandError> {
    match one_id_spec(s, branch_list_verb().len() as int) {
        Ok(t) => Ok(CommandModel::BranchList { tenant: t }),
        Err(e) => Err(e),
    }
}

/// `tenant_create <hex>`.
pub open spec fn tenant_create_spec(s: Seq<u8>) -> Result<CommandModel, CommandError> {
    let p = tenant_create_verb().len() as int;
    if !(s.len() > p && s[p] == 32) {
        Err(CommandError::InvalidArguments)
    } else {
        match one_id_spec(s, p + 1) {
            Ok(t) => Ok(CommandModel::TenantCreate { tenant: t }),
            Err(e) => Err(e),
        }
    }
}

/// `branch_create <hex> <name> <startpoint>`, then only whitespace or `;`.
pub open spec fn branch_create_spec(s: Seq<u8>) -> Result<CommandModel, CommandError> {
    let p = branch_create_verb().len() as int;
    let a = run_end(s, p, CharClass::Hex);
    let c = run_end(s, a + 1, CharClass::NonSpace);
    let d = run_end(s, c + 1, CharClass::Word);
    if !(a > p && a < s.len() && s[a] == 32) {
        Err(CommandError::InvalidArguments)
    } else if !(c > a + 1 && c < s.len() && s[c] == 32) {
        Err(CommandError::InvalidArguments)
    } else if !(d > c + 1 && run_end(s, d, CharClass::SpaceOrSemi) == s.len()) {
        Err(CommandError::InvalidArguments)
    } else {
        match tenant_of(s.subrange(p, a)) {
            Some(t) => Ok(
                CommandModel::BranchCreate {
                    tenant: t,
                    name: s.subrange(a + 1, c),
                    startpoint: s.subrange(c + 1, d),
                },
            ),
            None => Err(CommandError::InvalidId),
        }
    }
}

/// `do_gc <hex> <hex> [<decimal horizon>]`, separated by single spaces.
pub open spec fn do_gc_spec(s: Seq<u8>) -> Result<CommandModel, CommandError> {
    let p = do_gc_verb().len() as int;
    let a = run_end(s, p, CharClass::Hex);
    let b = run_end(s, a + 1, CharClass::Hex);
    let d = run_end(s, b + 1, CharClass::Digit);
    if !(a > p && a < s.len() && s[a] == 32) {
        Err(CommandError::InvalidArguments)
    } else if !(b > a + 1) {
        Err(CommandError::InvalidArguments)
    } else if b < s.len() && !(s[b] == 32 && d > b + 1 && d == s.len()) {
        Err(CommandError::InvalidArguments)
    } else {
        match (tenant_of(s.subrange(p, a)), timeline_of(s.subrange(a + 1, b))) {
            (Some(t), Some(l)) => if b == s.len() {
                Ok(CommandModel::DoGc { tenant: t, timeline: l, horizon: None })
            } else if dec_value(s.subrange(b + 1, d)) <= u64::MAX {
                Ok(
                    CommandModel::DoGc {
                        tenant: t,
                        timeline: l,
                        horizon: Some(dec_value(s.subrange(b + 1, d)) as u64),
                    },
                )
            } else {
                Err(CommandError::InvalidHorizon)
            },
            _ => Err(CommandError::InvalidId),
        }
    }
}

pub open spec fn lower(c: u8) -> u8 {
    if 65 <= c <= 90 {
        (c + 32) as u8
    } else {
        c
    }
}

/// `set ` in any letter case.
pub open spec fn set_prefix(s: Seq<u8>) -> bool {
    s.len() >= 4 && lower(s[0]) == 115 && lower(s[1]) == 101 && lower(s[2]) == 116 && s[3] == 32
}

/// What a simple query asks for. A trailing NUL is dropped; the verbs are
/// tried in a fixed order, each by its prefix.
pub open spec fn parse_command_spec(q: Seq<u8>) -> Result<CommandModel, CommandError> {
    let s = strip_nul(q);
    if !vstd::utf8::valid_utf8(s) {
        Err(CommandError::InvalidUtf8)
    } else if s == controlfile_verb() {
        Ok(CommandModel::ControlFile)
    } else if has_prefix_spec(s, pagestream_verb()) {
        pagestream_spec(s)
    } else if has_prefix_spec(s, basebackup_verb()) {
        basebackup_spec(s)
    } else if has_prefix_spec(s, callmemaybe_verb()) {
        callmemaybe_spec(s)
    } else if has_prefix_spec(s, branch_create_verb()) {
        branch_create_spec(s)
    } else if has_prefix_spec(s, push_verb()) {
        push_spec(s)
    } else if has_prefix_spec(s, request_push_verb()) {
        request_push_spec(s)
    } else if has_prefix_spec(s, branch_list_verb()) {
        branch_list_spec(s)
    } else if s == tenant_list_verb() {
        Ok(CommandModel::TenantList)
    } else if has_prefix_spec(s, tenant_create_verb()) {
        tenant_create_spec(s)
    } else if s == status_verb() {
        Ok(CommandModel::Status)
    } else if set_prefix(s) {
        Ok(CommandModel::SetVariable)
    } else if has_prefix_spec(s, do_gc_verb()) {
        do_gc_spec(s)
    } else {
        Err(CommandError::UnknownCommand)
    }
}

/// Relies on std::str::from_utf8: it succeeds exactly on well-formed UTF-8.
#[verifier::external_body]
fn is_utf8(b: &[u8]) -> (r: bool)
    ensures
        r == vstd::utf8::valid_utf8(b@),
{
    std::str::from_utf8(b).is_ok()
}

fn parse_pagestream(s: &[u8]) -> (r: Result<Command, CommandError>)
    requires
        has_prefix_spec(s@, pagestream_verb()),
    ensures
        result_view(r) == pagestream_spec(s@),
{
    let p = pagestream_lit();
    let rest = copy_range(s, p.len(), s.len());
    let rest = rest.as_slice();
    let k = match find_byte_from(rest, 32, 0) {
        Some(k) => k,
        None => return Err(CommandError::InvalidArguments),
    };
    proof {
        lemma_find_byte_found(rest@, 32, 0);
    }
    let len = rest.len();
    let k1 = len - (len - k - 1);
    if find_byte_from(rest, 32, k1).is_some() {
        return Err(CommandError::InvalidArguments);
    }
    match (tenant_in(rest, 0, k), timeline_in(rest, k1, len)) {
        (Some(t), Some(l)) => Ok(Command::Pagestream { tenant: t, timeline: l }),
        _ => Err(CommandError::InvalidId),
    }
}

fn parse_basebackup(s: &[u8]) -> (r: Result<Command, CommandError>)
    requires
        has_prefix_spec(s@, basebackup_verb()),
    ensures
        result_view(r) == basebackup_spec(s@),
{
    let p = basebackup_lit();
    let rest = copy_range(s, p.len(), s.len());
    let rest = rest.as_slice();
    let len = rest.len();
    let k1 = match find_byte_from(rest, 32, 0) {
        Some(k) => k,
        None => return Err(CommandError::InvalidArguments),
    };
    proof {
        lemma_find_byte_found(rest@, 32, 0);
    }
    let a1 = len - (len - k1 - 1);
    let k2 = find_byte_from(rest, 32, a1);
    proof {
        lemma_find_byte_found(rest@, 32, a1 as int);
    }
    let end1: usize = match k2 {
        Some(k) => {
            let a2 = len - (len - k - 1);
            if find_byte_from(rest, 32, a2).is_some() {
                return Err(CommandError::InvalidArguments);
            }
            k
        },
        None => len,
    };
    match (tenant_in(rest, 0, k1), timeline_in(rest, a1, end1)) {
        (Some(t), Some(l)) => match k2 {
            None => Ok(Command::Basebackup { tenant: t, timeline: l, lsn: None }),
            Some(k) => {
                let text = copy_range(rest, len - (len - k - 1), len);
                match Lsn::parse(text.as_slice()) {
                    Some(x) => Ok(Command::Basebackup { tenant: t, timeline: l, lsn: Some(x) }),
                    None => Err(CommandError::InvalidLsn),
                }
            },
        },
        _ => Err(CommandError::InvalidId),
    }
}

fn parse_ids_and_text(s: &[u8], p: usize) -> (r: Result<
    (ZTenantId, ZTimelineId, Vec<u8>),
    CommandError,
>)
    requires
        p <= s@.len(),
    ensures
        match ids_and_text_spec(s@, p as int) {
            Ok((t, l, c)) => r matches Ok((t2, l2, c2)) && t2 == t && l2 == l && c2@ == c,
            Err(e) => r == Err::<(ZTenantId, ZTimelineId, Vec<u8>), CommandError>(e),
        },
{
    let len = s.len();
    let a = find_run_end(s, p, CharClass::Hex);
    if !(a > p && a < len && s[a] == 32) {
        return Err(CommandError::InvalidArguments);
    }
    let b = find_run_end(s, a + 1, CharClass::Hex);
    if !(b > a + 1 && b < len && s[b] == 32) {
        return Err(CommandError::InvalidArguments);
    }
    let text = copy_range(s, b + 1, len);
    if find_byte_from(text.as_slice(), 10, 0).is_some() {
        return Err(CommandError::InvalidArguments);
    }
    match (tenant_in(s, p, a), timeline_in(s, a + 1, b)) {
        (Some(t), Some(l)) => Ok((t, l, text)),
        _ => Err(CommandError::InvalidId),
    }
}

fn parse_two_ids(s: &[u8], p: usize) -> (r: Result<(ZTenantId, ZTimelineId), CommandError>)
    requires
        p <= s@.len(),
    ensures
        r == two_ids_spec(s@, p as int),
{
    let len = s.len();
    let a = find_run_end(s, p, CharClass::Hex);
    if !(a > p && a < len && s[a] == 32) {
        return Err(CommandError::InvalidArguments);
    }
    let b = find_run_end(s, a + 1, CharClass::Hex);
    if !(b > a + 1 && b == len) {
        return Err(CommandError::InvalidArguments);
    }
    match (tenant_in(s, p, a), timeline_in(s, a + 1, b)) {
        (Some(t), Some(l)) => Ok((t, l)),
        _ => Err(CommandError::InvalidId),
    }
}

fn parse_one_id(s: &[u8], p: usize) -> (r: Result<ZTenantId, CommandError>)
    requires
        p <= s@.len(),
    ensures
        r == one_id_spec(s@, p as int),
{
    let a = find_run_end(s, p, CharClass::Hex);
    if !(a > p && a == s.len()) {
        return Err(CommandError::InvalidArguments);
    }
    match tenant_in(s, p, a) {
        Some(t) => Ok(t),
        None => Err(CommandError::InvalidId),
    }
}

fn parse_branch_create(s: &[u8]) -> (r: Result<Command, CommandError>)
    requires
        has_prefix_spec(s@, branch_create_verb()),
    ensures
        result_view(r) == branch_create_spec(s@),
{
    let p = branch_create_lit().len();
    let len = s.len();
    let a = find_run_end(s, p, CharClass::Hex);
    if !(a > p && a < len && s[a] == 32) {
        return Err(CommandError::InvalidArguments);
    }
    let c = find_run_end(s, a + 1, CharClass::NonSpace);
    if !(c > a + 1 && c < len && s[c] == 32) {
        return Err(CommandError::InvalidArguments);
    }
    let d = find_run_end(s, c + 1, CharClass::Word);
    if !(d > c + 1 && find_run_end(s, d, CharClass::SpaceOrSemi) == len) {
        return Err(CommandError::InvalidArguments);
    }
    match tenant_in(s, p, a) {
        Some(t) => Ok(
            Command::BranchCreate {
                tenant: t,
                name: copy_range(s, a + 1, c),
                startpoint: copy_range(s, c + 1, d),
            },
        ),
        None => Err(CommandError::InvalidId),
    }
}

fn parse_do_gc(s: &[u8]) -> (r: Result<Command, CommandError>)
    requires
        has_prefix_spec(s@, do_gc_verb()),
    ensures
        result_view(r) == do_gc_spec(s@),
{
    let p = do_gc_lit().len();
    let len = s.len();
    let a = find_run_end(s, p, CharClass::Hex);
    if !(a > p && a < len && s[a] == 32) {
        return Err(CommandError::InvalidArguments);
    }
    let b = find_run_end(s, a + 1, CharClass::Hex);
    if !(b > a + 1) {
        return Err(CommandError::InvalidArguments);
    }
    let mut d: usize = b;
    if b < len {
        if s[b] != 32 {
            return Err(CommandError::InvalidArguments);
        }
        d = find_run_end(s, b + 1, CharClass::Digit);
        if !(d > b + 1 && d == len) {
            return Err(CommandError::InvalidArguments);
        }
    }
    let ids = (tenant_in(s, p, a), timeline_in(s, a + 1, b));
    let (t, l) = match ids {
        (Some(t), Some(l)) => (t, l),
        _ => return Err(CommandError::InvalidId),
    };
    if b == len {
        return Ok(Command::DoGc { tenant: t, timeline: l, horizon: None });
    }
    let digits = copy_range(s, b + 1, d);
    assert(all_dec(digits@));
    match parse_dec_u64(digits.as_slice()) {
        Some(h) => Ok(Command::DoGc { tenant: t, timeline: l, horizon: Some(h) }),
        None => Err(CommandError::InvalidHorizon),
    }
}

/// Whether the query is exactly the given verb.
fn is_exactly(s: &[u8], v: &[u8]) -> (r: bool)
    ensures
        r == (s@ == v@),
{
    if s.len() != v.len() {
        return false;
    }
    assert(s@.subrange(0, v@.len() as int) =~= s@);
    has_prefix(s, v)
}

fn lower_byte(c: u8) -> (r: u8)
    ensures
        r == lower(c),
{
    if 65 <= c && c <= 90 {
        c + 32
    } else {
        c
    }
}

/// Parses a simple query into a command.
#[verifier::rlimit(40)]
pub fn parse_command(q: &[u8]) -> (r: Result<Command, CommandError>)
    ensures
        result_view(r) == parse_command_spec(q@),
{
    let n = q.len();
    let owned = if n > 0 && q[n - 1] == 0 {
        copy_range(q, 0, n - 1)
    } else {
        copy_range(q, 0, n)
    };
    assert(owned@ == strip_nul(q@)) by {
        if n > 0 && q@.last() == 0 {
            assert(q@.drop_last() =~= q@.subrange(0, n - 1));
        } else {
            assert(q@ =~= q@.subrange(0, n as int));
        }
    }
    let s = owned.as_slice();
    if !is_utf8(s) {
        return Err(CommandError::InvalidUtf8);
    }
    if is_exactly(s, controlfile_lit()) {
        Ok(Command::ControlFile)
    } else if has_prefix(s, pagestream_lit()) {
        parse_pagestream(s)
    } else if has_prefix(s, basebackup_lit()) {
        parse_basebackup(s)
    } else if has_prefix(s, callmemaybe_lit()) {
        match parse_ids_and_text(s, callmemaybe_lit().len()) {
            Ok((t, l, c)) => Ok(Command::Callmemaybe { tenant: t, timeline: l, connstr: c }),
            Err(e) => Err(e),
        }
    } else if has_prefix(s, branch_create_lit()) {
        parse_branch_create(s)
    } else if has_prefix(s, push_lit()) {
        match parse_two_ids(s, push_lit().len()) {
            Ok((t, l)) => Ok(Command::Push { tenant: t, timeline: l }),
            Err(e) => Err(e),
        }
    } else if has_prefix(s, request_push_lit()) {
        match parse_ids_and_text(s, request_push_lit().len()) {
            Ok((t, l, c)) => Ok(Command::RequestPush { tenant: t, timeline: l, connstr: c }),
            Err(e) => Err(e),
        }
    } else if has_prefix(s, branch_list_lit()) {
        match parse_one_id(s, branch_list_lit().len()) {
            Ok(t) => Ok(Command::BranchList { tenant: t }),
            Err(e) => Err(e),
        }
    } else if is_exactly(s, tenant_list_lit()) {
        Ok(Command::TenantList)
    } else if has_prefix(s, tenant_create_lit()) {
        let p = tenant_create_lit().len();
        if !(s.len() > p && s[p] == 32) {
            return Err(CommandError::InvalidArguments);
        }
        match parse_one_id(s, p + 1) {
            Ok(t) => Ok(Command::TenantCreate { tenant: t }),
            Err(e) => Err(e),
        }
    } else if is_exactly(s, status_lit()) {
        Ok(Command::Status)
    } else if s.len() >= 4 && lower_byte(s[0]) == 115 && lower_byte(s[1]) == 101 && lower_byte(
        s[2],
    ) == 116 && s[3] == 32 {
        Ok(Command::SetVariable)
    } else if has_prefix(s, do_gc_lit()) {
        parse_do_gc(s)
    } else {
        Err(CommandError::UnknownCommand)
    }
}

} // verus!
