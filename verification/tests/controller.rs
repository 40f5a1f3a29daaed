use esera_mqtt::controller::{frame_line, munch, setup_step, Error, Phase, Next, SETUP_STEPS};
use esera_mqtt::{Handshake, Msg, MsgKind, Session, OW};

/// A session that has read all of its input.
fn session(input: &[u8]) -> Session {
    let mut c = Session::new();
    c.feed(input);
    c
}

#[test]
fn controller_get_next_item() {
    let mut c = session("1_EVT|21:02:43\n".as_bytes());
    assert!(matches!(
        c.pop(),
        Some(Ok(OW {
            msg: Msg::Evt(_),
            ..
        }))
    ));
}

#[test]
fn controller_wait_on_closed_reader_should_fail() {
    let mut c = session("".as_bytes());
    assert!(matches!(c.pop(), None));
}

#[test]
fn controller_parse_garbage() {
    let mut c = session("<BS>i������J���Ӈ��\n1_INF|21:28:53\n".as_bytes());
    assert!(matches!(c.pop(), Some(Err(Error::Parse { .. }))));
    assert!(matches!(
        c.pop(),
        Some(Ok(OW {
            msg: Msg::Inf(_),
            ..
        }))
    ));
    assert!(matches!(c.pop(), None));
}

#[test]
fn controller_pick_should_return_match() {
    let mut c = session("1_DATE|20.09.20\n".as_bytes());
    let res = c.pick(MsgKind::Date).unwrap().unwrap();
    assert_eq!(res.msg, Msg::Date("20.09.20".into()));
    assert!(c.queue.is_empty());
}

#[test]
fn controller_wait_should_cut_out_match() {
    let mut c = session(
        "1_KAL|1\n\
               1_DATAPRINT|1\n\
               1_DATE|07.11.20\n"
            .as_bytes(),
    );
    let res = c.pick(MsgKind::Dataprint).unwrap().unwrap();
    assert!(matches!(
        res,
        OW {
            msg: Msg::Dataprint('1'),
            ..
        }
    ));
    let mut q = c.queue.into_iter().map(|r| r.unwrap());
    assert_eq!(q.next().unwrap().msg, Msg::Keepalive('1'));
    assert_eq!(q.next().unwrap().msg, Msg::Date("07.11.20".into()));
    assert_eq!(q.next(), None);
}

#[test]
fn connection_get_next_item() {
    let mut c = session("1_EVT|21:02:43\n".as_bytes());
    assert!(matches!(c.pop(), Some(Ok(OW { msg: Msg::Evt(_), .. }))));
}

#[test]
fn connection_wait_on_closed_reader_should_fail() {
    let mut c = session("".as_bytes());
    assert!(matches!(c.pop(), None));
}

#[test]
fn connection_parse_garbage() {
    let mut c = session("<BS>i������J���Ӈ��\n1_INF|21:28:53\n".as_bytes());
    assert!(matches!(c.pop(), Some(Err(Error::Parse { .. }))));
    assert!(matches!(c.pop(), Some(Ok(OW { msg: Msg::Inf(_), .. }))));
    assert!(matches!(c.pop(), None));
}

#[test]
fn connection_pick_should_return_match() {
    let mut c = session("1_DATE|20.09.20\n".as_bytes());
    assert_eq!(
        c.pick(MsgKind::Date).unwrap().unwrap().msg,
        Msg::Date("20.09.20".to_string())
    );
    assert!(c.queue.is_empty());
}

#[test]
fn connection_wait_should_cut_out_match() {
    let mut c = session(
        "1_KAL|1\n\
               1_DATAPRINT|1\n\
               1_DATE|07.11.20\n"
            .as_bytes(),
    );
    assert_eq!(c.pick(MsgKind::Dataprint).unwrap().unwrap().msg, Msg::Dataprint('1'));
    assert_eq!(
        c.queue
            .into_iter()
            .map(|r| r.unwrap().msg)
            .collect::<Vec<Msg>>(),
        vec![Msg::Keepalive('1'), Msg::Date("07.11.20".into())]
    );
}

#[test]
fn invalid_utf8_noise_is_thrown_away_up_to_the_line_feed() {
    let mut input: Vec<u8> = vec![0xff, 0xfe, 0x00, 0x80, b'1', b'_'];
    input.extend_from_slice("\n1_INF|21:28:53\n1_KA".as_bytes());
    let mut c = session(&input);
    assert_eq!(c.pop(), Some(Err(Error::Parse { offset: 0 })));
    assert_eq!(
        c.pop(),
        Some(Ok(OW {
            contno: 1,
            msg: Msg::Inf("21:28:53".into())
        }))
    );
    assert_eq!(c.pop(), None);
    assert_eq!(c.partial, "1_KA".as_bytes());
    c.feed("L|1\r\n".as_bytes());
    assert_eq!(
        c.pop(),
        Some(Ok(OW {
            contno: 1,
            msg: Msg::Keepalive('1')
        }))
    );
    assert!(c.partial.is_empty());
}

#[test]
fn messages_may_arrive_in_pieces() {
    let whole = "1_KAL|1\r\n2_OWD1_1|-5\n3_DATE|01.02.03\n";
    for cut in 0..whole.len() {
        let mut c = Session::new();
        c.feed(&whole.as_bytes()[..cut]);
        c.feed(&whole.as_bytes()[cut..]);
        let kinds: Vec<MsgKind> = c.queue.iter().map(|i| i.as_ref().unwrap().msg.kind()).collect();
        assert_eq!(kinds, vec![MsgKind::Keepalive, MsgKind::Devstatus, MsgKind::Date], "{}", cut);
        assert!(c.partial.is_empty());
    }
}

#[test]
fn munch_takes_one_message_at_a_time() {
    let mut buf = "1_KAL|1\nxx\n1_RDY|1".as_bytes().to_vec();
    assert_eq!(munch(&mut buf), Some(Ok(OW { contno: 1, msg: Msg::Keepalive('1') })));
    assert_eq!(buf, "xx\n1_RDY|1".as_bytes());
    assert_eq!(munch(&mut buf), Some(Err(Error::Parse { offset: 0 })));
    assert_eq!(buf, "1_RDY|1".as_bytes());
    assert_eq!(munch(&mut buf), None);
    assert_eq!(buf, "1_RDY|1".as_bytes());
    // a broken line without a line feed loses one byte
    let mut buf = "x1_KAL|1".as_bytes().to_vec();
    assert_eq!(munch(&mut buf), Some(Err(Error::Parse { offset: 0 })));
    assert_eq!(buf, "1_KAL|1".as_bytes());
}

#[test]
fn pick_stops_at_a_controller_error() {
    let mut c = session("1_KAL|1\n1_ERR|3\n1_SAVE|1\n".as_bytes());
    assert_eq!(c.pick(MsgKind::Save), Some(Err(Error::Controller(3))));
    assert_eq!(c.queue.len(), 3);
    assert_eq!(c.pick(MsgKind::Keepalive), Some(Ok(OW { contno: 1, msg: Msg::Keepalive('1') })));
    assert_eq!(c.pick(MsgKind::CSI), Some(Err(Error::Controller(3))));
    assert_eq!(c.pick_closed(MsgKind::CSI), Err(Error::Controller(3)));
    assert_eq!(c.pick(MsgKind::Error), Some(Ok(OW { contno: 1, msg: Msg::Error(3) })));
    assert_eq!(c.pick(MsgKind::CSI), None);
    assert_eq!(c.pick_closed(MsgKind::CSI), Err(Error::Disconnected));
    assert_eq!(c.pick_closed(MsgKind::Save), Ok(OW { contno: 1, msg: Msg::Save('1') }));
    assert_eq!(c.pick(MsgKind::Save), None);
}

#[test]
fn pick_skips_broken_lines() {
    let mut c = session("nonsense\n1_DATE|01.01.21\n".as_bytes());
    assert!(matches!(c.pick(MsgKind::Date), Some(Ok(_))));
    assert_eq!(c.queue.len(), 1);
    assert!(matches!(c.pop(), Some(Err(Error::Parse { offset: 0 }))));
}

#[test]
fn session_notes_the_controller_number() {
    let mut c = session(
        "1_CSI|1\n1_DATE|1\n1_TIME|1\n1_ARTNO|11340\n1_SERNO|S\n1_FW|F\n1_HW|H\n1_CONTNO|7\n".as_bytes(),
    );
    let csi = c.pick(MsgKind::CSI).unwrap().unwrap();
    assert_eq!(c.contno, 0);
    c.note(&csi);
    assert_eq!(c.contno, 7);
    c.note(&OW { contno: 9, msg: Msg::Keepalive('1') });
    assert_eq!(c.contno, 7);
}

#[test]
fn lines_are_framed() {
    assert_eq!(frame_line("SET,SYS,SAVE"), "SET,SYS,SAVE\r\n");
    assert_eq!(frame_line("SET,SYS,SAVE\r\n"), "SET,SYS,SAVE\r\n");
    assert_eq!(frame_line("SET,SYS,SAVE\n"), "SET,SYS,SAVE\n\r\n");
    assert_eq!(frame_line(""), "\r\n");
}

#[test]
fn handshake_steps() {
    let steps: Vec<(String, Option<MsgKind>)> = (0..SETUP_STEPS)
        .map(|k| {
            let r = setup_step(k, "25.10.20", "14:44:14").unwrap();
            (r.line, r.wait)
        })
        .collect();
    assert_eq!(
        steps,
        vec![
            ("SET,SYS,DATAPRINT,1".to_string(), Some(MsgKind::Dataprint)),
            ("SET,SYS,DATE,25.10.20".to_string(), Some(MsgKind::Date)),
            ("SET,SYS,TIME,14:44:14".to_string(), Some(MsgKind::Time)),
            ("SET,SYS,KALSENDTIME,120".to_string(), None),
            ("SET,SYS,DATATIME,30".to_string(), Some(MsgKind::Datatime)),
            ("SET,SYS,SAVE".to_string(), Some(MsgKind::Save)),
            ("GET,SYS,INFO".to_string(), Some(MsgKind::CSI)),
            ("GET,OWB,LISTALL1".to_string(), Some(MsgKind::List3)),
        ]
    );
    assert!(setup_step(SETUP_STEPS, "", "").is_none());
}

/// Runs a handshake against a controller that answers each line with the
/// given text.
fn shake(answer: fn(&str) -> &'static str) -> (Handshake, Vec<String>, Vec<OW>, Result<(), Error>, Session) {
    let mut hs = Handshake::new();
    let mut session = Session::new();
    let mut sent = Vec::new();
    let mut handed = Vec::new();
    let mut pending: Vec<&'static str> = Vec::new();
    for _ in 0..100 {
        let closed = pending.is_empty();
        assert!(hs.step <= SETUP_STEPS);
        match hs.next(&mut session, "25.10.20", "14:44:14", closed) {
            Next::Send(line) => {
                // the answer arrives in two pieces
                let text = answer(&line);
                pending.push(&text[..text.len() / 2]);
                pending.push(&text[text.len() / 2..]);
                sent.push(line);
            }
            Next::Read => {
                let text = pending.remove(0);
                session.feed(text.as_bytes());
            }
            Next::Hand(msg) => handed.push(msg),
            Next::Done => return (hs, sent, handed, Ok(()), session),
            Next::Failed(e) => return (hs, sent, handed, Err(e), session),
        }
    }
    panic!("the handshake does not end");
}

fn good_controller(line: &str) -> &'static str {
    match line {
        "SET,SYS,DATAPRINT,1" => "2_EVT|14:44:13\n2_DATAPRINT|1\n",
        "SET,SYS,DATE,25.10.20" => "2_DATE|25.10.20\n",
        "SET,SYS,TIME,14:44:14" => "2_TIME|14:44:14\n",
        "SET,SYS,KALSENDTIME,120" => "2_KALSENDTIME|120\n",
        "SET,SYS,DATATIME,30" => "2_DATATIME|30\n",
        "SET,SYS,SAVE" => "2_SAVE|1\n",
        "GET,SYS,INFO" => {
            "2_CSI|1\n2_DATE|1\n2_TIME|1\n2_ARTNO|11340\n2_SERNO|S\n2_FW|F\n2_HW|H\n2_CONTNO|2\n"
        }
        "GET,OWB,LISTALL1" => "2_LST3|1\nLST|2_OWD1|A|S_0|11150\n2_KAL|1\n",
        _ => "",
    }
}

#[test]
fn handshake_runs_through() {
    let (mut hs, sent, handed, res, mut session) = shake(good_controller);
    assert_eq!(res, Ok(()));
    assert_eq!(hs.phase, Phase::Running);
    assert_eq!(
        sent,
        vec![
            "SET,SYS,DATAPRINT,1",
            "SET,SYS,DATE,25.10.20",
            "SET,SYS,TIME,14:44:14",
            "SET,SYS,KALSENDTIME,120",
            "SET,SYS,DATATIME,30",
            "SET,SYS,SAVE",
            "GET,SYS,INFO",
            "GET,OWB,LISTALL1",
        ]
    );
    let kinds: Vec<MsgKind> = handed.iter().map(|m| m.msg.kind()).collect();
    assert_eq!(kinds, vec![MsgKind::CSI, MsgKind::List3]);
    assert_eq!(session.contno, 2);
    // what nobody waited for is still there, in its order
    let rest: Vec<MsgKind> = session.queue.iter().map(|i| i.as_ref().unwrap().msg.kind()).collect();
    assert_eq!(rest, vec![MsgKind::Evt, MsgKind::Devstatus, MsgKind::Keepalive]);
    assert_eq!(hs.next(&mut session, "", "", true), Next::Done);
}

fn refusing_controller(line: &str) -> &'static str {
    match line {
        "SET,SYS,DATAPRINT,1" => "2_DATAPRINT|1\n",
        "SET,SYS,DATE,25.10.20" => "2_ERR|3\n",
        _ => "",
    }
}

fn silent_controller(line: &str) -> &'static str {
    match line {
        "SET,SYS,DATAPRINT,1" => "2_DATAPRINT|1\n",
        _ => "2_KAL|1\n",
    }
}

#[test]
fn handshake_fails_on_an_error_and_on_a_closed_connection() {
    let (hs, sent, handed, res, _) = shake(refusing_controller);
    assert_eq!(res, Err(Error::Controller(3)));
    assert_eq!(hs.phase, Phase::Disconnected);
    assert_eq!(sent.len(), 2);
    assert!(handed.is_empty());
    let (mut hs, sent, _, res, mut session) = shake(silent_controller);
    assert_eq!(res, Err(Error::Disconnected));
    assert_eq!(hs.phase, Phase::Disconnected);
    assert_eq!(sent.len(), 2);
    assert_eq!(hs.next(&mut session, "", "", false), Next::Failed(Error::Disconnected));
}
