use esera_mqtt::parser::{
    csi, dataprint, date, datatime, devstatus, dio, err, evt, inf, kal, lst3, owdstatus, parse,
    rdy, rst, save, time, PResult,
};
use esera_mqtt::{DeviceInfo, Devstatus, Msg, OWDStatus, Status, CSI, DIO, OW};

fn done(r: PResult) -> (usize, OW) {
    match r {
        PResult::Done { consumed, msg } => (consumed, msg),
        other => panic!("no message: {:?}", other),
    }
}

#[test]
fn parse_keepalive() {
    let input = "1_KAL|1\n".as_bytes();
    let (consumed, msg) = done(kal(input));
    assert_eq!(&input[consumed..], "".as_bytes());
    assert!(matches!(
        msg,
        OW {
            msg: Msg::Keepalive('1'),
            contno: 1
        }
    ));
}

#[test]
fn parse_incomplete() {
    assert!(matches!(kal("1_KAL|1".as_bytes()), PResult::Incomplete));
}

#[test]
fn parse_dataprint() {
    assert_eq!(
        done(dataprint("1_DATAPRINT|1\n".as_bytes())).1.msg,
        Msg::Dataprint('1')
    );
}

#[test]
fn parse_date() {
    assert_eq!(
        done(date("2_DATE|03.11.20\n".as_bytes())).1.msg,
        Msg::Date("03.11.20".to_owned())
    );
}

#[test]
fn parse_time() {
    assert_eq!(
        done(time("3_TIME|0:00:52\n".as_bytes())).1.msg,
        Msg::Time("0:00:52".to_owned())
    );
}

#[test]
fn incomplete_list() {
    let input = "\
1_LST3|0:02:54\n\
LST|1_OWD1|EF000019096A4026|S_0|11150\n";
    assert!(matches!(lst3(input.as_bytes()), PResult::Incomplete))
}

#[test]
fn parse_lst3() {
    let input = "\
1_LST3|00:02:54\n\
LST|1_OWD1|EF000019096A4026|S_0|11150\n\
LST|1_OWD2|4300001982956429|S_0|DS2408|K8\n\
LST|1_OWD4|FFFFFFFFFFFFFFFF|S_10|none|             \n\
1_EVT|0:02:55\n";
    let (consumed, mtch) = done(lst3(input.as_bytes()));
    assert_eq!(&input.as_bytes()[consumed..], "1_EVT|0:02:55\n".as_bytes());
    assert_eq!(
        mtch,
        OW {
            contno: 1,
            msg: Msg::List3(vec![
                DeviceInfo {
                    contno: 1,
                    busid: "OWD1".into(),
                    serno: "EF000019096A4026".into(),
                    status: Status::Online,
                    artno: "11150".into(),
                    name: None
                },
                DeviceInfo {
                    contno: 1,
                    busid: "OWD2".into(),
                    serno: "4300001982956429".into(),
                    status: Status::Online,
                    artno: "DS2408".into(),
                    name: Some("K8".into())
                },
                DeviceInfo {
                    contno: 1,
                    busid: "OWD4".into(),
                    serno: "FFFFFFFFFFFFFFFF".into(),
                    status: Status::Unconfigured,
                    artno: "none".into(),
                    name: None
                },
            ])
        }
    );
}

#[test]
fn parse_devstatus_numeric() {
    let input = "1_OWD12_3|2\n".as_bytes();
    let (consumed, msg) = done(devstatus(input));
    assert_eq!(consumed, input.len());
    assert_eq!(
        msg,
        OW {
            contno: 1,
            msg: Msg::Devstatus(Devstatus {
                addr: "OWD12_3".into(),
                val: 2
            })
        }
    );
}

#[test]
fn parse_devstatus_sys() {
    assert_eq!(
        done(devstatus("2_SYS3|500\n".as_bytes())).1.msg,
        Msg::Devstatus(Devstatus {
            addr: "SYS3".into(),
            val: 500
        })
    );
}

#[test]
fn parse_devstatus_neg() {
    assert_eq!(
        done(devstatus("3_OWD16_1|-847\n".as_bytes())).1.msg,
        Msg::Devstatus(Devstatus {
            addr: "OWD16_1".into(),
            val: -847
        })
    );
}

#[test]
fn parse_dio() {
    assert_eq!(
        done(dio("3_DIO|1\n".as_bytes())).1,
        OW {
            contno: 3,
            msg: Msg::DIO(DIO::IndependentEdge)
        }
    );
}

#[test]
fn parse_status() {
    assert_eq!(
        done(parse("4_OWD_2|5\n".as_bytes())).1,
        OW {
            contno: 4,
            msg: Msg::OWDStatus(OWDStatus {
                owd: 2,
                status: Status::Offline
            })
        }
    )
}

#[test]
fn keepalive_takes_its_line() {
    let input = "1_KAL|1\n".as_bytes();
    let (consumed, msg) = done(parse(input));
    assert_eq!(consumed, 8);
    assert_eq!(
        msg,
        OW {
            contno: 1,
            msg: Msg::Keepalive('1')
        }
    );
}

#[test]
fn every_line_kind_is_read_and_taken_whole() {
    let cases: Vec<(&str, Msg)> = vec![
        ("1_KAL|0\r\n", Msg::Keepalive('0')),
        ("1_INF|21:28:53\n", Msg::Inf("21:28:53".into())),
        ("1_EVT|21:02:43\r\n", Msg::Evt("21:02:43".into())),
        ("1_ERR|3\n", Msg::Error(3)),
        ("1_RST|1\n", Msg::Rst('1')),
        ("1_RDY|1\n", Msg::Rdy('1')),
        ("1_SAVE|1\n", Msg::Save('1')),
        ("1_DATAPRINT|0\n", Msg::Dataprint('0')),
        ("1_DATATIME|30\n", Msg::Datatime(30)),
        ("1_DATE|07.11.20\n", Msg::Date("07.11.20".into())),
        ("1_TIME|14:44:14\n", Msg::Time("14:44:14".into())),
        ("1_DIO|3\n", Msg::DIO(DIO::LinkedEdge)),
        (
            "1_OWD_30|10\n",
            Msg::OWDStatus(OWDStatus {
                owd: 30,
                status: Status::Unconfigured,
            }),
        ),
        (
            "1_SYS1_1|6\r\n",
            Msg::Devstatus(Devstatus {
                addr: "SYS1_1".into(),
                val: 6,
            }),
        ),
    ];
    for (line, expected) in cases {
        let mut input = line.as_bytes().to_vec();
        input.extend_from_slice("9_KAL|1\n".as_bytes());
        let (consumed, msg) = done(parse(&input));
        assert_eq!(consumed, line.len(), "{}", line);
        assert_eq!(msg, OW { contno: 1, msg: expected });
    }
}

#[test]
fn single_readers_read_their_own_lines() {
    assert_eq!(done(inf("2_INF|1:02:03\n".as_bytes())).1.msg, Msg::Inf("1:02:03".into()));
    assert_eq!(done(evt("2_EVT|1:02:03\n".as_bytes())).1.msg, Msg::Evt("1:02:03".into()));
    assert_eq!(done(err("2_ERR|65535\n".as_bytes())).1.msg, Msg::Error(65535));
    assert_eq!(done(rst("2_RST|0\n".as_bytes())).1.msg, Msg::Rst('0'));
    assert_eq!(done(rdy("2_RDY|0\n".as_bytes())).1.msg, Msg::Rdy('0'));
    assert_eq!(done(save("2_SAVE|0\n".as_bytes())).1.msg, Msg::Save('0'));
    assert_eq!(done(datatime("2_DATATIME|255\n".as_bytes())).1.msg, Msg::Datatime(255));
    assert_eq!(
        done(owdstatus("2_OWD_7|0\n".as_bytes())).1.msg,
        Msg::OWDStatus(OWDStatus { owd: 7, status: Status::Online })
    );
}

#[test]
fn numbers_beyond_their_range_are_errors() {
    assert!(matches!(err("2_ERR|65536\n".as_bytes()), PResult::Error { offset: 6 }));
    assert!(matches!(datatime("2_DATATIME|256\n".as_bytes()), PResult::Error { offset: 11 }));
    assert!(matches!(kal("256_KAL|1\n".as_bytes()), PResult::Error { offset: 0 }));
    assert!(matches!(devstatus("1_OWD1_1|2147483648\n".as_bytes()), PResult::Error { offset: 0 }));
    assert_eq!(
        done(devstatus("1_OWD1_1|-2147483647\n".as_bytes())).1.msg,
        Msg::Devstatus(Devstatus { addr: "OWD1_1".into(), val: -2147483647 })
    );
    assert!(matches!(dio("1_DIO|4\n".as_bytes()), PResult::Error { offset: 0 }));
    assert!(matches!(owdstatus("1_OWD_2|4\n".as_bytes()), PResult::Error { offset: 0 }));
    assert!(matches!(owdstatus("1_OWD_256|0\n".as_bytes()), PResult::Error { offset: 0 }));
}

#[test]
fn errors_name_the_offset() {
    assert!(matches!(kal("1_KAL|2\n".as_bytes()), PResult::Error { offset: 6 }));
    assert!(matches!(kal("x_KAL|1\n".as_bytes()), PResult::Error { offset: 0 }));
    assert!(matches!(kal("1-KAL|1\n".as_bytes()), PResult::Error { offset: 1 }));
    assert!(matches!(kal("1_KAL|1x".as_bytes()), PResult::Error { offset: 7 }));
    assert!(matches!(kal("1_KAL|1\rx".as_bytes()), PResult::Error { offset: 7 }));
    assert!(matches!(parse("1_INF|16:0x\n".as_bytes()), PResult::Error { offset: 8 }));
    assert!(matches!(parse("garbage\n".as_bytes()), PResult::Error { offset: 0 }));
}

#[test]
fn short_input_is_incomplete() {
    for input in ["", "1", "1_", "1_K", "1_KAL", "1_KAL|", "1_KAL|1", "1_KAL|1\r", "1_D", "1_OWD", "1_OWD1", "1_OWD1_1|-", "1_OWD1_1|12"] {
        assert!(matches!(parse(input.as_bytes()), PResult::Incomplete), "{:?}", input);
    }
}

#[test]
fn parse_csi() {
    let input = "\
1_CSI|17:51:09\n\
1_DATE|29.12.20\n\
1_TIME|17:51:09\n\
1_ARTNO|11340\n\
1_SERNO|113402019V2.0-243\n\
1_FW|V1.20_29b\n\
1_HW|V2.0\n\
1_CONTNO|2\n\
1_KAL|1\n";
    let (consumed, msg) = done(csi(input.as_bytes()));
    assert_eq!(&input.as_bytes()[consumed..], "1_KAL|1\n".as_bytes());
    assert_eq!(
        msg,
        OW {
            contno: 2,
            msg: Msg::CSI(CSI {
                date: "29.12.20".into(),
                time: "17:51:09".into(),
                artno: "11340".into(),
                serno: "113402019V2.0-243".into(),
                fw: "V1.20_29b".into(),
                hw: "V2.0".into(),
            })
        }
    );
    assert_eq!(done(parse(input.as_bytes())).1, msg);
    assert!(matches!(csi(&input.as_bytes()[..60]), PResult::Incomplete));
}

#[test]
fn list_without_entries_is_a_list() {
    let input = "1_LST3|0:02:54\n1_EVT|0:02:55\n";
    let (consumed, msg) = done(parse(input.as_bytes()));
    assert_eq!(consumed, 15);
    assert_eq!(msg, OW { contno: 1, msg: Msg::List3(vec![]) });
}

#[test]
fn list_ends_before_a_broken_entry_and_after_thirty() {
    let input = "1_LST3|0:02:54\nLST|1_OWD1|EF|S_0|11150\nLST|1_OWD2|EF|S_7|11150\n";
    let (consumed, msg) = done(lst3(input.as_bytes()));
    assert_eq!(consumed, 15 + 24);
    match msg.msg {
        Msg::List3(l) => assert_eq!(l.len(), 1),
        other => panic!("{:?}", other),
    }
    let mut long = String::from("1_LST3|0:02:54\n");
    for _ in 0..31 {
        long.push_str("LST|1_OWD1|EF|S_0|11150|N\n");
    }
    let (consumed, msg) = done(lst3(long.as_bytes()));
    assert_eq!(consumed, 15 + 30 * 26);
    match msg.msg {
        Msg::List3(l) => {
            assert_eq!(l.len(), 30);
            assert_eq!(l[29].name, Some("N".to_string()));
        }
        other => panic!("{:?}", other),
    }
}

#[test]
fn names_keep_their_characters() {
    let input = "1_LST3|0:02:54\nLST|1_OWD1|EF|S_online|11150|  Küche \r\n\n";
    match done(lst3(input.as_bytes())).1.msg {
        Msg::List3(l) => {
            assert_eq!(l[0].name, Some("Küche".to_string()));
            assert_eq!(l[0].status, Status::Online);
        }
        other => panic!("{:?}", other),
    }
    let mut raw = "1_LST3|0:02:54\nLST|1_OWD1|EF|S_0|11150|K".as_bytes().to_vec();
    raw.push(0xff);
    raw.extend_from_slice("\n\n".as_bytes());
    match done(lst3(&raw)).1.msg {
        Msg::List3(l) => assert_eq!(l[0].name, Some("K\u{fffd}".to_string())),
        other => panic!("{:?}", other),
    }
}
