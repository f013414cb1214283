use malloc_info::decode::ParseError;
use malloc_info::info::{Aspace, AspaceType, SystemType, Total, TotalType};
use malloc_info::memstream::{open_outcome, visible_len, Error as StreamError};
use malloc_info::{advance, Error, ErrorRepr, Next, Signal, Stage};

#[test]
fn open_needs_handle_flush_and_buffer() {
    assert_eq!(open_outcome(false, 0, false, 0), Ok(()));
    assert_eq!(open_outcome(true, 0, false, 12), Err(StreamError::LibC(12)));
    assert_eq!(open_outcome(false, -1, false, 5), Err(StreamError::LibC(5)));
    assert_eq!(open_outcome(false, 0, true, 5), Err(StreamError::MemStreamInvalid));
}

#[test]
fn unset_buffer_shows_nothing() {
    assert_eq!(visible_len(true, 13), 0);
    assert_eq!(visible_len(false, 13), 13);
    assert_eq!(visible_len(false, 0), 0);
}

#[test]
fn stages_advance_on_success() {
    assert!(matches!(advance(Stage::Opening, Signal::Opened(Ok(()))), Next::Continue(Stage::Writing)));
    assert!(matches!(
        advance(Stage::Writing, Signal::Returned { status: 0, code: 0 }),
        Next::Continue(Stage::Flushing)
    ));
    assert!(matches!(
        advance(Stage::Flushing, Signal::Returned { status: 0, code: 0 }),
        Next::Continue(Stage::Decoding)
    ));
}

#[test]
fn stages_stop_on_failure() {
    match advance(Stage::Opening, Signal::Opened(Err(StreamError::MemStreamInvalid))) {
        Next::Finished(Err(e)) => assert_eq!(e, Error(ErrorRepr::Memstream(StreamError::MemStreamInvalid))),
        _ => panic!("expected failure"),
    }
    match advance(Stage::Writing, Signal::Returned { status: -1, code: 22 }) {
        Next::Finished(Err(e)) => assert_eq!(e, Error(ErrorRepr::LibC(22))),
        _ => panic!("expected failure"),
    }
    match advance(Stage::Flushing, Signal::Returned { status: 1, code: 9 }) {
        Next::Finished(Err(e)) => assert_eq!(e, Error(ErrorRepr::LibC(9))),
        _ => panic!("expected failure"),
    }
}

#[test]
fn decoding_stage_finishes() {
    let report = b"<malloc version=\"1\"><heap nr=\"0\"/><total type=\"fast\" count=\"0\" size=\"0\"/>\
<system type=\"current\" size=\"8\"/><aspace type=\"total\" size=\"8\"/></malloc>"
        .to_vec();
    match advance(Stage::Decoding, Signal::Report(report)) {
        Next::Finished(Ok(m)) => {
            assert_eq!(m.version, "1");
            assert_eq!(m.system[0].size, 8);
        }
        _ => panic!("expected a report"),
    }
    match advance(Stage::Decoding, Signal::Report(b"<malloc/>".to_vec())) {
        Next::Finished(Err(e)) => assert_eq!(e, Error(ErrorRepr::Xml(ParseError::MissingAttribute))),
        _ => panic!("expected failure"),
    }
}

#[test]
fn unknown_types_survive_the_whole_pipeline() {
    let report = r#"
<malloc version="1">
<heap nr="0">
<sizes>
</sizes>
<total type="fast" count="0" size="0"/>
<total type="rest" count="0" size="0"/>
<system type="current" size="135168"/>
<system type="max" size="135168"/>
<aspace type="total" size="135168"/>
<aspace type="mprotect" size="135168"/>
</heap>
<total type="huge" count="3" size="7"/>
<total type="rest" count="0" size="0"/>
<system type="peak" size="135168"/>
<system type="max" size="135168"/>
<aspace type="total" size="135168"/>
<aspace type="shared" size="9"/>
</malloc>
"#;
    match advance(Stage::Decoding, Signal::Report(report.as_bytes().to_vec())) {
        Next::Finished(Ok(m)) => {
            assert_eq!(m.total.len(), 2);
            assert_eq!(m.total[0], Total { kind: TotalType::Other, count: 3, size: 7 });
            assert_eq!(m.system[0].kind, SystemType::Other);
            assert_eq!(m.aspace[1], Aspace { kind: AspaceType::Other, size: 9 });
        }
        _ => panic!("expected a report"),
    }
}

#[test]
fn comments_and_text_are_skipped() {
    let report = b"<?xml version=\"1.0\"?><!-- c --><malloc version=\"1\">text<heap nr=\"0\"/>\
<![CDATA[x]]><total type=\"fast\" count=\"1\" size=\"2\"/><?pi?>\
<system type=\"current\" size=\"8\"/><aspace type=\"total\" size=\"8\"/></malloc>"
        .to_vec();
    match advance(Stage::Decoding, Signal::Report(report)) {
        Next::Finished(Ok(m)) => {
            assert_eq!(m.heaps.len(), 1);
            assert_eq!(m.total[0].count, 1);
        }
        _ => panic!("expected a report"),
    }
}
