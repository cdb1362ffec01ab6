use pageserver::command::{parse_command, Command, CommandError};
use pageserver::config::PageServerConf;
use pageserver::lsn::Lsn;
use pageserver::page_service::{
    basebackup_lsn, gc_reply, GcResult, PageServerHandler,
};
use pageserver::pq_proto::BeMessage;

const T1: &str = "11111111111111111111111111111111";
const T2: &str = "22222222222222222222222222222222";

fn conf() -> PageServerConf {
    PageServerConf {
        daemonize: false,
        listen_addr: "127.0.0.1:64000".to_string(),
        http_endpoint_addr: "127.0.0.1:9898".to_string(),
        gc_horizon: 64 * 1024 * 1024,
        gc_period_secs: 100,
        gc_period_nanos: 0,
        superuser: "zenith_admin".to_string(),
        workdir: ".".to_string(),
        pg_distrib_dir: "/usr/local".to_string(),
    }
}

fn parse(q: &str) -> Result<Command, CommandError> {
    parse_command(q.as_bytes())
}

#[test]
fn set_is_accepted_in_any_case() {
    assert!(matches!(parse("SET datestyle TO 'ISO'"), Ok(Command::SetVariable)));
    assert!(matches!(parse("set anything at all"), Ok(Command::SetVariable)));
    assert!(matches!(parse("sEt x\0"), Ok(Command::SetVariable)));
    let c = conf();
    let h = PageServerHandler::new(&c);
    let reply = h.immediate_reply(&Command::SetVariable).unwrap();
    assert_eq!(reply.len(), 1);
    match &reply[0] {
        BeMessage::CommandComplete(t) => assert_eq!(t, b"SELECT 1"),
        other => panic!("unexpected {:?}", other),
    }
}

#[test]
fn status_and_controlfile_rows() {
    let c = conf();
    let h = PageServerHandler::new(&c);
    assert!(matches!(parse("status"), Ok(Command::Status)));
    assert!(matches!(parse("controlfile"), Ok(Command::ControlFile)));
    let reply = h.immediate_reply(&Command::Status).unwrap();
    assert_eq!(reply.len(), 3);
    match &reply[1] {
        BeMessage::DataRow(vs) => assert_eq!(vs[0].as_deref(), Some(&b"hello world"[..])),
        other => panic!("unexpected {:?}", other),
    }
    assert!(h.immediate_reply(&Command::TenantList).is_none());
}

#[test]
fn basebackup_with_and_without_lsn() {
    match parse(&format!("basebackup {} {}", T1, T2)).unwrap() {
        Command::Basebackup { tenant, timeline, lsn } => {
            assert_eq!(tenant.id, 0x11111111111111111111111111111111);
            assert_eq!(timeline.id, 0x22222222222222222222222222222222);
            assert_eq!(lsn, None);
            assert_eq!(basebackup_lsn(lsn, Lsn(0x5000)), Lsn(0x5000));
        }
        other => panic!("unexpected {:?}", other),
    }
    match parse(&format!("basebackup {} {} 1/2A", T1, T2)).unwrap() {
        Command::Basebackup { lsn, .. } => {
            assert_eq!(lsn, Some(Lsn(0x1_0000_002A)));
            assert_eq!(basebackup_lsn(lsn, Lsn(0x5000)), Lsn(0x1_0000_002A));
        }
        other => panic!("unexpected {:?}", other),
    }
    assert_eq!(parse(&format!("basebackup {} {} zz", T1, T2)).unwrap_err(), CommandError::InvalidLsn);
    assert_eq!(parse(&format!("basebackup {} {} 1/2 x", T1, T2)).unwrap_err(), CommandError::InvalidArguments);
    assert_eq!(parse(&format!("basebackup {}", T1)).unwrap_err(), CommandError::InvalidArguments);
}

#[test]
fn pagestream_argument_errors() {
    assert_eq!(parse(&format!("pagestream {}", T1)).unwrap_err(), CommandError::InvalidArguments);
    assert_eq!(parse(&format!("pagestream {} {} x", T1, T2)).unwrap_err(), CommandError::InvalidArguments);
    assert_eq!(parse(&format!("pagestream 1234 {}", T2)).unwrap_err(), CommandError::InvalidId);
}

#[test]
fn callmemaybe_and_request_push() {
    match parse(&format!("callmemaybe {} {} host=localhost port=55432", T1, T2)).unwrap() {
        Command::Callmemaybe { tenant, timeline, connstr } => {
            assert_eq!(tenant.id, 0x11111111111111111111111111111111);
            assert_eq!(timeline.id, 0x22222222222222222222222222222222);
            assert_eq!(connstr, b"host=localhost port=55432".to_vec());
        }
        other => panic!("unexpected {:?}", other),
    }
    match parse(&format!("request_push {} {} postgresql://h:1/db", T1, T2)).unwrap() {
        Command::RequestPush { connstr, .. } => assert_eq!(connstr, b"postgresql://h:1/db".to_vec()),
        other => panic!("unexpected {:?}", other),
    }
    assert_eq!(parse(&format!("callmemaybe {} {}", T1, T2)).unwrap_err(), CommandError::InvalidArguments);
    assert_eq!(parse(&format!("callmemaybe {} {} a\nb", T1, T2)).unwrap_err(), CommandError::InvalidArguments);
}

#[test]
fn push_branch_and_tenant_verbs() {
    assert!(matches!(parse(&format!("push {} {}", T1, T2)), Ok(Command::Push { .. })));
    assert_eq!(parse(&format!("push {} {} x", T1, T2)).unwrap_err(), CommandError::InvalidArguments);
    assert!(matches!(parse(&format!("branch_list {}", T1)), Ok(Command::BranchList { .. })));
    assert!(matches!(parse("tenant_list"), Ok(Command::TenantList)));
    match parse(&format!("tenant_create {}", T1)).unwrap() {
        Command::TenantCreate { tenant } => assert_eq!(tenant.id, 0x11111111111111111111111111111111),
        other => panic!("unexpected {:?}", other),
    }
    assert_eq!(parse("tenant_create").unwrap_err(), CommandError::InvalidArguments);
    match parse(&format!("branch_create {} experimental 0/16B5A50 ;", T1)).unwrap() {
        Command::BranchCreate { name, startpoint, .. } => {
            assert_eq!(name, b"experimental".to_vec());
            assert_eq!(startpoint, b"0/16B5A50".to_vec());
        }
        other => panic!("unexpected {:?}", other),
    }
    assert_eq!(parse(&format!("branch_create {} name", T1)).unwrap_err(), CommandError::InvalidArguments);
}

#[test]
fn do_gc_with_and_without_horizon() {
    let c = conf();
    let h = PageServerHandler::new(&c);
    match parse(&format!("do_gc {} {} 65536", T1, T2)).unwrap() {
        Command::DoGc { horizon, .. } => {
            assert_eq!(horizon, Some(65536));
            assert_eq!(h.gc_horizon(horizon), 65536);
        }
        other => panic!("unexpected {:?}", other),
    }
    match parse(&format!("do_gc {} {}", T1, T2)).unwrap() {
        Command::DoGc { horizon, .. } => {
            assert_eq!(horizon, None);
            assert_eq!(h.gc_horizon(horizon), 64 * 1024 * 1024);
        }
        other => panic!("unexpected {:?}", other),
    }
    assert_eq!(
        parse(&format!("do_gc {} {} 99999999999999999999", T1, T2)).unwrap_err(),
        CommandError::InvalidHorizon
    );
    assert_eq!(parse(&format!("do_gc {}x{}", T1, T2)).unwrap_err(), CommandError::InvalidArguments);
}

#[test]
fn s5_do_gc_row_shape() {
    let g = GcResult {
        n_relations: 12,
        truncated: 3,
        deleted: 0,
        prep_deleted: 1,
        slru_deleted: 2,
        chkp_deleted: 4,
        dropped: 5,
        elapsed: 1234567,
    };
    let reply = gc_reply(&g);
    assert_eq!(reply.len(), 3);
    match &reply[0] {
        BeMessage::RowDescription(ds) => {
            let names: Vec<&[u8]> = ds.iter().map(|d| &d.name[..]).collect();
            let want: Vec<&[u8]> = vec![
                b"n_relations", b"truncated", b"deleted", b"prep_deleted", b"slru_deleted",
                b"chkp_deleted", b"dropped", b"elapsed",
            ];
            assert_eq!(names, want);
            assert!(ds.iter().all(|d| d.typoid == 20 && d.typlen == 8));
        }
        other => panic!("unexpected {:?}", other),
    }
    match &reply[1] {
        BeMessage::DataRow(vs) => {
            let vals: Vec<Vec<u8>> = vs.iter().map(|v| v.clone().unwrap()).collect();
            assert_eq!(vals[0], b"12".to_vec());
            assert_eq!(vals[2], b"0".to_vec());
            assert_eq!(vals[7], b"1234567".to_vec());
        }
        other => panic!("unexpected {:?}", other),
    }
}

#[test]
fn unknown_and_non_utf8_queries() {
    assert_eq!(parse("select 1").unwrap_err(), CommandError::UnknownCommand);
    assert_eq!(parse("").unwrap_err(), CommandError::UnknownCommand);
    assert_eq!(parse_command(&[0x70, 0xff, 0xfe]).unwrap_err(), CommandError::InvalidUtf8);
}

#[test]
fn identifiers_accept_upper_case() {
    match parse(&format!("push {} {}", "ABCDEF0123456789abcdef0123456789", T2)).unwrap() {
        Command::Push { tenant, .. } => {
            assert_eq!(tenant.id, 0xabcdef0123456789abcdef0123456789);
            assert_eq!(tenant.to_hex(), b"abcdef0123456789abcdef0123456789".to_vec());
        }
        other => panic!("unexpected {:?}", other),
    }
}

#[test]
fn canonical_hex_reads_back() {
    let t = pageserver::ids::ZTenantId { id: 0x0123456789abcdef0011223344556677 };
    let text = t.to_hex();
    assert_eq!(text, b"0123456789abcdef0011223344556677".to_vec());
    assert_eq!(pageserver::ids::ZTenantId::from_hex(&text), Some(t));
}

#[test]
fn do_gc_arguments_are_single_spaced() {
    assert_eq!(parse(&format!("do_gc {}\t{}", T1, T2)).unwrap_err(), CommandError::InvalidArguments);
    assert_eq!(parse(&format!("do_gc {} {} abc", T1, T2)).unwrap_err(), CommandError::InvalidArguments);
    assert_eq!(parse(&format!("do_gc {} {} 5x", T1, T2)).unwrap_err(), CommandError::InvalidArguments);
    assert_eq!(parse(&format!("do_gc {} {} ", T1, T2)).unwrap_err(), CommandError::InvalidArguments);
}

#[test]
fn verbs_without_arguments_match_exactly() {
    assert_eq!(parse("statusfoo").unwrap_err(), CommandError::UnknownCommand);
    assert_eq!(parse("controlfile x").unwrap_err(), CommandError::UnknownCommand);
    assert_eq!(parse("tenant_listx").unwrap_err(), CommandError::UnknownCommand);
    assert!(matches!(parse("tenant_list\0"), Ok(Command::TenantList)));
}
