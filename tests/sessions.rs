use pageserver::uring_launch::{launch_step, LaunchOutcome, LaunchStep};
use pageserver::broker::{map_option_err, parse_proto_ttid, EitherBody, ProtoTenantTimelineId, TtidError};
use pageserver::config::{CfgFileParams, ConfigError};
use pageserver::ids::{TenantTimelineId, ZTenantId, ZTimelineId};
use pageserver::lsn::Lsn;
use pageserver::command::parse_command;
use pageserver::page_service::{check_tenant, copy_data_chunks, json_row_reply, tenants_json, COPY_CHUNK};
use pageserver::pq_proto::{
    parse_fe_message, parse_startup, write_message, BeMessage, FeMessage, FeParse, StartupKind,
    StartupParse,
};
use pageserver::push::{PushAction, PushEvent, PushSession};
use pageserver::receive_wal::{WalEvent, WalReceiver};
use pageserver::registry::{RegistryError, Subscriptions, TenantRegistry};

fn tenant(id: u128) -> ZTenantId {
    ZTenantId { id }
}

#[test]
fn s3_tenant_lifecycle() {
    let mut reg: TenantRegistry<&str> = TenantRegistry::new();
    let t = tenant(0x11111111111111111111111111111111);
    assert_eq!(reg.insert(t, "repo-1"), Ok(()));
    let listed = reg.list();
    assert_eq!(listed, vec![t]);
    let json = tenants_json(&listed).unwrap();
    assert_eq!(json, b"[\"11111111111111111111111111111111\"]".to_vec());
    assert_eq!(reg.insert(t, "repo-2"), Err(RegistryError::Conflict));
    assert_eq!(reg.list(), vec![t]);
    assert_eq!(*reg.get(t).unwrap(), "repo-1");
    assert_eq!(reg.get(tenant(7)).err(), Some(RegistryError::NotFound));
    let reply = json_row_reply(json);
    assert_eq!(reply.len(), 3);
}

#[test]
fn tenants_json_lists_in_order() {
    assert_eq!(tenants_json(&vec![]).unwrap(), b"[]".to_vec());
    let json = tenants_json(&vec![tenant(1), tenant(0xab)]).unwrap();
    assert_eq!(
        json,
        b"[\"00000000000000000000000000000001\",\"000000000000000000000000000000ab\"]".to_vec()
    );
}

#[test]
fn s4_push_then_query() {
    let mut s = PushSession::new();
    assert_eq!(s.on_event(PushEvent::Data(Lsn(10))), PushAction::Apply(Lsn(10)));
    assert_eq!(s.on_event(PushEvent::Sync), PushAction::Ignore);
    assert_eq!(s.on_event(PushEvent::Data(Lsn(20))), PushAction::Apply(Lsn(20)));
    assert_eq!(s.on_event(PushEvent::Data(Lsn(30))), PushAction::Apply(Lsn(30)));
    assert_eq!(s.on_event(PushEvent::Done), PushAction::Advance(Lsn(30)));
}

#[test]
fn push_advances_to_highest_lsn() {
    let mut s = PushSession::new();
    s.on_event(PushEvent::Data(Lsn(30)));
    s.on_event(PushEvent::Data(Lsn(10)));
    assert_eq!(s.on_event(PushEvent::Done), PushAction::Advance(Lsn(30)));
    let mut s = PushSession::new();
    assert_eq!(s.on_event(PushEvent::Other), PushAction::Fail);
    assert_eq!(s.on_event(PushEvent::Done), PushAction::Advance(Lsn(0)));
}

#[test]
fn s6_subscription_release_on_drop() {
    let mut w = WalReceiver::new(true);
    let a = w.on_event(WalEvent::Greeting);
    assert!(a.resume && a.subscribe && a.process && !a.stop);
    let a = w.on_event(WalEvent::Message);
    assert!(a.process && !a.stop);
    let a = w.on_event(WalEvent::Closed);
    assert!(a.stop && !a.error);
    assert!(!w.abandon());
}

#[test]
fn stop_streaming_runs_once_on_unwind() {
    let mut w = WalReceiver::new(false);
    let a = w.on_event(WalEvent::Greeting);
    assert!(!a.subscribe);
    assert!(w.abandon());
    assert!(!w.abandon());
    let mut w = WalReceiver::new(true);
    let a = w.on_event(WalEvent::Message);
    assert!(a.error && !a.stop);
    assert!(!w.abandon());
    let mut w = WalReceiver::new(true);
    w.on_event(WalEvent::Greeting);
    let a = w.on_event(WalEvent::Failed);
    assert!(a.stop && a.error);
    assert!(!w.on_event(WalEvent::Closed).stop);
}

#[test]
fn callmemaybe_is_idempotent() {
    let mut s = Subscriptions::new();
    let id = TenantTimelineId { tenant_id: tenant(1), timeline_id: ZTimelineId { id: 2 } };
    assert!(s.subscribe(id, b"host=a".to_vec()));
    assert!(!s.subscribe(id, b"host=a".to_vec()));
    assert!(s.is_active(id));
    let other = TenantTimelineId { tenant_id: tenant(1), timeline_id: ZTimelineId { id: 3 } };
    assert!(!s.is_active(other));
    assert!(s.subscribe(other, b"host=b".to_vec()));
}

#[test]
fn wire_messages() {
    let mut buf = Vec::new();
    write_message(&mut buf, &BeMessage::CommandComplete(b"SELECT 1".to_vec())).unwrap();
    assert_eq!(buf, b"C\0\0\0\x0dSELECT 1\0".to_vec());
    let mut buf = Vec::new();
    write_message(&mut buf, &BeMessage::ReadyForQuery).unwrap();
    write_message(&mut buf, &BeMessage::CopyDone).unwrap();
    write_message(&mut buf, &BeMessage::CopyBothResponse).unwrap();
    assert_eq!(buf, vec![b'Z', 0, 0, 0, 5, b'I', b'c', 0, 0, 0, 4, b'W', 0, 0, 0, 7, 1, 0, 0]);
    let mut buf = Vec::new();
    write_message(&mut buf, &BeMessage::DataRow(vec![Some(b"ab".to_vec()), None])).unwrap();
    assert_eq!(buf, vec![b'D', 0, 0, 0, 16, 0, 2, 0, 0, 0, 2, b'a', b'b', 0xff, 0xff, 0xff, 0xff]);
    let mut buf = Vec::new();
    write_message(&mut buf, &BeMessage::ErrorResponse(b"boom".to_vec())).unwrap();
    assert_eq!(buf, b"E\0\0\0\x19SERROR\0CXX000\0Mboom\0\0".to_vec());
    let mut buf = Vec::new();
    write_message(&mut buf, &BeMessage::EncryptionResponse(false)).unwrap();
    assert_eq!(buf, b"N".to_vec());
}

#[test]
fn frontend_messages() {
    let mut b = b"Q\0\0\0\x0bstatus\0".to_vec();
    b.extend_from_slice(b"S\0\0\0\x04");
    match parse_fe_message(&b) {
        FeParse::Message(FeMessage::Query(q), n) => {
            assert_eq!(q, b"status\0".to_vec());
            assert_eq!(n, 12);
            assert!(matches!(parse_fe_message(&b[n..]), FeParse::Message(FeMessage::Sync, 5)));
        }
        other => panic!("unexpected {:?}", other),
    }
    assert!(matches!(parse_fe_message(&b[..8]), FeParse::Incomplete));
    assert!(matches!(parse_fe_message(b"d\0\0\0\x02"), FeParse::Malformed));
    assert_eq!(parse_startup(&[0, 0, 0, 8, 0x04, 0xd2, 0x16, 0x2f]), StartupParse::Packet(StartupKind::SslRequest, 8));
    assert_eq!(parse_startup(&[0, 0, 0, 9, 0, 3, 0, 0, 0]), StartupParse::Packet(StartupKind::Startup, 9));
    assert_eq!(parse_startup(&[0, 0, 0, 9, 0, 3, 0, 0]), StartupParse::Incomplete);
}

#[test]
fn copy_stream_is_cut_in_chunks() {
    let data: Vec<u8> = (0..150000u32).map(|i| (i % 256) as u8).collect();
    let chunks = copy_data_chunks(&data);
    assert_eq!(chunks.len(), 3);
    assert_eq!(chunks[0].len(), COPY_CHUNK);
    assert_eq!(chunks.concat(), data);
    assert!(copy_data_chunks(&[]).is_empty());
}

#[test]
fn config_defaults_and_overrides() {
    let cli = CfgFileParams {
        listen_addr: Some("0.0.0.0:1".to_string()),
        http_endpoint_addr: None,
        gc_horizon: None,
        gc_period: Some("10s".to_string()),
        pg_distrib_dir: None,
    };
    let file = CfgFileParams {
        listen_addr: Some("0.0.0.0:2".to_string()),
        http_endpoint_addr: None,
        gc_horizon: Some("1024".to_string()),
        gc_period: Some("1m".to_string()),
        pg_distrib_dir: Some("/opt/pg".to_string()),
    };
    let p = cli.or(file);
    assert_eq!(p.listen_addr.as_deref(), Some("0.0.0.0:1"));
    assert_eq!(p.gc_horizon.as_deref(), Some("1024"));
    assert_eq!(p.gc_period.as_deref(), Some("10s"));
    let c = p.try_into_config("/tmp/x".to_string()).unwrap();
    assert_eq!(c.listen_addr, "0.0.0.0:1");
    assert_eq!(c.http_endpoint_addr, "127.0.0.1:9898");
    assert_eq!(c.gc_horizon, 1024);
    assert_eq!((c.gc_period_secs, c.gc_period_nanos), (10, 0));
    assert_eq!(c.pg_distrib_dir, "/opt/pg");
    assert_eq!(c.superuser, "zenith_admin");
    let empty = CfgFileParams { listen_addr: None, http_endpoint_addr: None, gc_horizon: None, gc_period: None, pg_distrib_dir: None };
    let c = empty.try_into_config("/tmp/x/tmp_install".to_string()).unwrap();
    assert_eq!(c.gc_horizon, 64 * 1024 * 1024);
    assert_eq!((c.gc_period_secs, c.gc_period_nanos), (100, 0));
    assert_eq!(c.listen_addr, "127.0.0.1:64000");
    assert_eq!(c.pg_distrib_dir, "/tmp/x/tmp_install");
}

#[test]
fn config_errors() {
    let bad_h = CfgFileParams { listen_addr: None, http_endpoint_addr: None, gc_horizon: Some("-1".to_string()), gc_period: None, pg_distrib_dir: None };
    assert_eq!(bad_h.try_into_config(String::new()).unwrap_err(), ConfigError::BadGcHorizon);
    let bad_p = CfgFileParams { listen_addr: None, http_endpoint_addr: None, gc_horizon: None, gc_period: Some("soon".to_string()), pg_distrib_dir: None };
    assert_eq!(bad_p.try_into_config(String::new()).unwrap_err(), ConfigError::BadGcPeriod);
    let ms = CfgFileParams { listen_addr: None, http_endpoint_addr: None, gc_horizon: None, gc_period: Some("1500ms".to_string()), pg_distrib_dir: None };
    let c = ms.try_into_config(String::new()).unwrap();
    assert_eq!((c.gc_period_secs, c.gc_period_nanos), (1, 500_000_000));
}

#[test]
fn broker_identifiers() {
    let mut t = vec![0u8; 16];
    t[15] = 1;
    let mut l = vec![0u8; 16];
    l[0] = 0x80;
    let id = parse_proto_ttid(&ProtoTenantTimelineId { tenant_id: t.clone(), timeline_id: l }).unwrap();
    assert_eq!(id.tenant_id.id, 1);
    assert_eq!(id.timeline_id.id, 0x80 << 120);
    let e = parse_proto_ttid(&ProtoTenantTimelineId { tenant_id: vec![1, 2], timeline_id: t.clone() }).unwrap_err();
    assert_eq!(e, TtidError::MalformedTenantId);
    assert_eq!(e.message(), "malformed tenant_id");
    let e = parse_proto_ttid(&ProtoTenantTimelineId { tenant_id: t, timeline_id: vec![] }).unwrap_err();
    assert_eq!(e, TtidError::MalformedTimelineId);
}

#[test]
fn option_errors_are_converted() {
    let r: Option<Result<u8, u8>> = Some(Err(3));
    assert_eq!(map_option_err(r, |e: u8| e as u32 + 1), Some(Err(4u32)));
    let r: Option<Result<u8, u8>> = Some(Ok(5));
    assert_eq!(map_option_err(r, |e: u8| e as u32), Some(Ok(5u8)));
    let r: Option<Result<u8, u8>> = None;
    assert_eq!(map_option_err(r, |e: u8| e as u32), None);
    let b: EitherBody<u8, u16> = EitherBody::Left(1);
    assert!(b.is_left());
    let b: EitherBody<u8, u16> = EitherBody::Right(1);
    assert!(!b.is_left());
}

#[test]
fn lsn_text_form() {
    assert_eq!(Lsn::parse(b"0/16B5A50"), Some(Lsn(0x16B5A50)));
    assert_eq!(Lsn::parse(b"FFFFFFFF/FFFFFFFF"), Some(Lsn(u64::MAX)));
    assert_eq!(Lsn::parse(b"100000000/0"), None);
    assert_eq!(Lsn::parse(b"12"), None);
    assert_eq!(Lsn::parse(b"/1"), None);
}

#[test]
fn uring_launch_retries_only_out_of_memory() {
    assert_eq!(launch_step(0, LaunchOutcome::Launched), LaunchStep::Ready);
    assert_eq!(launch_step(0, LaunchOutcome::OutOfMemory), LaunchStep::Retry { next_attempt: 1 });
    assert_eq!(launch_step(u32::MAX, LaunchOutcome::OutOfMemory), LaunchStep::Retry { next_attempt: 0 });
    assert_eq!(launch_step(5, LaunchOutcome::Failed), LaunchStep::Abort);
}

#[test]
fn unregistered_tenant_is_not_found() {
    let mut reg: TenantRegistry<u8> = TenantRegistry::new();
    let q = b"pagestream 11111111111111111111111111111111 22222222222222222222222222222222";
    let cmd = parse_command(q).unwrap();
    assert_eq!(check_tenant(&reg, &cmd), Err(RegistryError::NotFound));
    let create = parse_command(b"tenant_create 11111111111111111111111111111111").unwrap();
    assert_eq!(check_tenant(&reg, &create), Ok(()));
    reg.insert(tenant(0x11111111111111111111111111111111), 1).unwrap();
    assert_eq!(check_tenant(&reg, &cmd), Ok(()));
    let gc = parse_command(b"do_gc 33333333333333333333333333333333 22222222222222222222222222222222").unwrap();
    assert_eq!(check_tenant(&reg, &gc), Err(RegistryError::NotFound));
    assert_eq!(check_tenant(&reg, &parse_command(b"status").unwrap()), Ok(()));
}

fn with_horizon_and_period(h: Option<&str>, p: Option<&str>) -> CfgFileParams {
    CfgFileParams {
        listen_addr: None,
        http_endpoint_addr: None,
        gc_horizon: h.map(str::to_string),
        gc_period: p.map(str::to_string),
        pg_distrib_dir: None,
    }
}

#[test]
fn gc_horizon_accepts_a_plus_sign() {
    let c = with_horizon_and_period(Some("+5"), None).try_into_config(String::new()).unwrap();
    assert_eq!(c.gc_horizon, 5);
    let e = with_horizon_and_period(Some("+"), None).try_into_config(String::new()).unwrap_err();
    assert_eq!(e, ConfigError::BadGcHorizon);
    let e = with_horizon_and_period(Some("++5"), None).try_into_config(String::new()).unwrap_err();
    assert_eq!(e, ConfigError::BadGcHorizon);
}

#[test]
fn huge_gc_period_is_refused_without_panic() {
    let e = with_horizon_and_period(None, Some("18446744073709551615s 500ms 500ms"))
        .try_into_config(String::new())
        .unwrap_err();
    assert_eq!(e, ConfigError::BadGcPeriod);
    let c = with_horizon_and_period(None, Some("1hour 12min 5s")).try_into_config(String::new()).unwrap();
    assert_eq!((c.gc_period_secs, c.gc_period_nanos), (4325, 0));
    assert_eq!(c.workdir, ".");
}
