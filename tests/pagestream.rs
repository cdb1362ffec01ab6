use pageserver::command::{parse_command, Command};
use pageserver::lsn::Lsn;
use pageserver::pagestream::{
    page_query, pagestream_response, zero_page, PageAnswer, PageQuery, PagestreamBeMessage,
    PagestreamError, PagestreamFeMessage, PagestreamRequest, PagestreamStatusResponse, RelTag,
    BLCKSZ,
};
use pageserver::page_service::{pagestream_step, PagestreamStep};
use pageserver::pq_proto::{write_message, BeMessage, FeMessage};

fn req(spcnode: u32, dbnode: u32, relnode: u32, forknum: u8, blkno: u32, lsn: u64) -> PagestreamRequest {
    PagestreamRequest { spcnode, dbnode, relnode, forknum, blkno, lsn: Lsn(lsn) }
}

#[test]
fn s1_exists_for_nonexistent_rel() {
    let q = b"pagestream deadbeefdeadbeefdeadbeefdeadbeef cafebabecafebabecafebabecafebabe";
    match parse_command(q).unwrap() {
        Command::Pagestream { tenant, timeline } => {
            assert_eq!(tenant.id, 0xdeadbeefdeadbeefdeadbeefdeadbeef);
            assert_eq!(timeline.id, 0xcafebabecafebabecafebabecafebabe);
        }
        other => panic!("unexpected {:?}", other),
    }
    let m = PagestreamFeMessage::Exists(req(1663, 5, 999, 0, 0, 0x1000));
    let bytes = m.serialize();
    assert_eq!(bytes.len(), 26);
    let parsed = PagestreamFeMessage::parse(&bytes).unwrap();
    assert_eq!(parsed, m);
    assert_eq!(
        page_query(&parsed),
        PageQuery::RelExists(RelTag { spcnode: 1663, dbnode: 5, relnode: 999, forknum: 0 }, Lsn(0x1000))
    );
    let resp = pagestream_response(PageAnswer::RelExists(Some(false)));
    assert_eq!(resp.serialize(), vec![0x64, 0, 0, 0, 0, 0]);
}

#[test]
fn s2_read_returns_8198_bytes() {
    let m = PagestreamFeMessage::Read(req(1663, 5, 1259, 0, 3, 0x2000));
    let parsed = PagestreamFeMessage::parse(&m.serialize()).unwrap();
    let page: Vec<u8> = (0..BLCKSZ).map(|i| (i % 251) as u8).collect();
    let resp = pagestream_response(PageAnswer::PageAt(Some(page.clone())));
    let bytes = resp.serialize();
    assert_eq!(bytes.len(), 8198);
    assert_eq!(bytes[0], 0x66);
    assert_eq!(bytes[1], 1);
    assert_eq!(&bytes[6..], &page[..]);
    match page_query(&parsed) {
        PageQuery::PageAt(tag, lsn) => {
            assert_eq!(tag.blknum, 3);
            assert_eq!(tag.rel.relnode, 1259);
            assert_eq!(lsn, Lsn(0x2000));
        }
        other => panic!("unexpected {:?}", other),
    }
    let mut frame = Vec::new();
    write_message(&mut frame, &BeMessage::CopyData(bytes)).unwrap();
    assert_eq!(frame.len(), 1 + 4 + 8198);
    assert_eq!(frame[0], b'd');
    assert_eq!(&frame[1..5], &(8198u32 + 4).to_be_bytes());
}

#[test]
fn failed_read_gives_zero_page() {
    let resp = pagestream_response(PageAnswer::PageAt(None));
    let bytes = resp.serialize();
    assert_eq!(bytes.len(), 8198);
    assert_eq!(&bytes[..6], &[102, 0, 0, 0, 0, 0]);
    assert!(bytes[6..].iter().all(|b| *b == 0));
}

#[test]
fn short_page_is_a_failed_read() {
    let resp = pagestream_response(PageAnswer::PageAt(Some(vec![7u8; 100])));
    match resp {
        PagestreamBeMessage::Read(r) => {
            assert!(!r.ok);
            assert_eq!(r.page, zero_page());
        }
        _ => panic!("expected a read response"),
    }
}

#[test]
fn nblocks_of_absent_relation_is_ok_zero() {
    let resp = pagestream_response(PageAnswer::RelSize(None));
    assert_eq!(resp.serialize(), vec![101, 1, 0, 0, 0, 0]);
    let resp = pagestream_response(PageAnswer::RelSize(Some(0x01020304)));
    assert_eq!(resp.serialize(), vec![101, 1, 1, 2, 3, 4]);
}

#[test]
fn exists_answers() {
    assert_eq!(pagestream_response(PageAnswer::RelExists(Some(true))).serialize(), vec![100, 1, 0, 0, 0, 0]);
    assert_eq!(pagestream_response(PageAnswer::RelExists(None)).serialize(), vec![100, 0, 0, 0, 0, 0]);
}

#[test]
fn request_round_trip() {
    for m in [
        PagestreamFeMessage::Exists(req(1, 2, 3, 4, 5, 6)),
        PagestreamFeMessage::Nblocks(req(u32::MAX, 0, 7, 255, 9, u64::MAX)),
        PagestreamFeMessage::Read(req(0x01020304, 0x05060708, 0x090a0b0c, 0x0d, 0x0e0f1011, 0x1213141516171819)),
    ] {
        let b = m.serialize();
        let back = PagestreamFeMessage::parse(&b).unwrap();
        assert_eq!(back, m);
        assert_eq!(back.serialize(), b);
    }
    let b = PagestreamFeMessage::Read(req(0x01020304, 0x05060708, 0x090a0b0c, 0x0d, 0x0e0f1011, 0x1213141516171819)).serialize();
    let want: Vec<u8> = (1u8..=0x19).collect();
    assert_eq!(b[0], 2);
    assert_eq!(&b[1..], &want[..25]);
}

#[test]
fn response_round_trip() {
    let r = PagestreamBeMessage::Status(PagestreamStatusResponse { ok: true, n_blocks: 42 });
    let b = r.serialize();
    let back = PagestreamBeMessage::parse(&b).unwrap();
    assert_eq!(back.serialize(), b);
    let page: Vec<u8> = (0..BLCKSZ).map(|i| (i * 7) as u8).collect();
    let r = pagestream_response(PageAnswer::PageAt(Some(page)));
    let b = r.serialize();
    assert_eq!(PagestreamBeMessage::parse(&b).unwrap().serialize(), b);
}

#[test]
fn malformed_requests_are_refused() {
    assert_eq!(PagestreamFeMessage::parse(&[0u8; 25]), Err(PagestreamError::BadLength));
    assert_eq!(PagestreamFeMessage::parse(&[0u8; 27]), Err(PagestreamError::BadLength));
    let mut b = [0u8; 26];
    b[0] = 3;
    assert_eq!(PagestreamFeMessage::parse(&b), Err(PagestreamError::UnknownTag));
    assert!(matches!(PagestreamBeMessage::parse(&[100, 2, 0, 0, 0, 0]), Err(PagestreamError::BadFlag)));
    assert!(matches!(PagestreamBeMessage::parse(&[102, 1, 0, 0, 0, 0]), Err(PagestreamError::BadLength)));
    assert!(matches!(PagestreamBeMessage::parse(&[7, 1, 0, 0, 0, 0]), Err(PagestreamError::UnknownTag)));
}

#[test]
fn session_ignores_other_messages() {
    assert!(matches!(pagestream_step(&FeMessage::Sync), PagestreamStep::Ignore));
    assert!(matches!(pagestream_step(&FeMessage::Flush), PagestreamStep::Ignore));
    let m = PagestreamFeMessage::Nblocks(req(1663, 5, 999, 0, 0, 0x1000));
    match pagestream_step(&FeMessage::CopyData(m.serialize())) {
        PagestreamStep::Serve(x) => assert_eq!(x, m),
        _ => panic!("expected a request"),
    }
    assert!(matches!(
        pagestream_step(&FeMessage::CopyData(vec![1, 2, 3])),
        PagestreamStep::Fail(PagestreamError::BadLength)
    ));
}

#[test]
fn responses_follow_request_kinds() {
    let reqs = [
        (PagestreamFeMessage::Exists(req(1, 1, 1, 0, 0, 1)), PageAnswer::RelExists(Some(true)), 100u8),
        (PagestreamFeMessage::Nblocks(req(1, 1, 1, 0, 0, 1)), PageAnswer::RelSize(Some(3)), 101u8),
        (PagestreamFeMessage::Read(req(1, 1, 1, 0, 0, 1)), PageAnswer::PageAt(None), 102u8),
    ];
    for (m, a, tag) in reqs {
        let q = page_query(&m);
        match (&q, &a) {
            (PageQuery::RelExists(..), PageAnswer::RelExists(_))
            | (PageQuery::RelSize(..), PageAnswer::RelSize(_))
            | (PageQuery::PageAt(..), PageAnswer::PageAt(_)) => {}
            _ => panic!("query and answer differ in kind"),
        }
        assert_eq!(pagestream_response(a).serialize()[0], tag);
    }
}
