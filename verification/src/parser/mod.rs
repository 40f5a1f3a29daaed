//! The reader of the controller's line protocol.
//!
//! Every message is a line `<contno>_<KEY>|<payload>`, ended by a line feed
//! with or without a carriage return before it; two messages span several
//! lines. The readers take the bytes that have arrived so far. Each says how
//! many of them its message took, or that it must see more, or where the
//! bytes stop being the message.
use crate::message::{
    dio_of, status_of, CSIView, Devstatus, DevstatusView, Msg, MsgView, OWDStatus, OWView, Status,
    CSI, DIO, OW,
};
use crate::text::{ascii_string, decode_lossy, lossy_text};
use vstd::prelude::*;
use vstd::slice::slice_subrange;
use vstd::string::*;

pub mod list;
pub mod scan;

pub use list::{lst3, spec_lst3};
use scan::{
    byte, check, contno, contno_at, flag, header, lemma_run_ascii, lemma_span_end, line_end,
    number, read_number, rest_of_line, run, scan_byte, scan_contno, scan_flag, scan_header,
    scan_line_end, scan_rest_of_line, scan_run, scan_tag, tag, word, Class, Scan, Step,
};

verus! {

/// What reading a message off the start of some bytes comes to.
pub enum Parsed<T> {
    /// The message, and the number of bytes that it took.
    Done { used: int, value: T },
    /// The bytes may be the start of a message: more must arrive.
    Incomplete,
    /// The bytes are no message: they stop being one at `offset`.
    Error { offset: int },
}

/// What reading a message off the start of some bytes comes to.
#[derive(Debug, Clone, PartialEq)]
pub enum PResult {
    /// The message, and the number of bytes that it took.
    Done { consumed: usize, msg: OW },
    /// The bytes may be the start of a message: more must arrive.
    Incomplete,
    /// The bytes are no message: they stop being one at `offset`.
    Error { offset: usize },
}

impl View for PResult {
    type V = Parsed<OWView>;

    open spec fn view(&self) -> Parsed<OWView> {
        match self {
            PResult::Done { consumed, msg } => Parsed::Done { used: *consumed as int, value: msg@ },
            PResult::Incomplete => Parsed::Incomplete,
            PResult::Error { offset } => Parsed::Error { offset: *offset as int },
        }
    }
}

/// The outcome of a reader whose scanning ended at `end`.
pub open spec fn finish<T>(end: Step, value: T) -> Parsed<T> {
    match end {
        Step::At(p) => Parsed::Done { used: p, value },
        Step::Incomplete => Parsed::Incomplete,
        Step::Fail(o) => Parsed::Error { offset: o },
    }
}

/// The first of two readings that is no error, else the second error.
pub open spec fn or_else<T>(first: Parsed<T>, second: Parsed<T>) -> Parsed<T> {
    if first is Error {
        second
    } else {
        first
    }
}

/// The outcome of a reader that found no message.
fn unfinished(end: Scan) -> (r: PResult)
    requires
        !(end is At),
    ensures
        r@ == finish::<OWView>(end@, arbitrary()),
{
    match end {
        Scan::Fail(o) => PResult::Error { offset: o },
        _ => PResult::Incomplete,
    }
}

/// A line with a flag as its payload.
pub open spec fn flag_line(s: Seq<u8>, key: Seq<char>) -> Step {
    line_end(s, flag(s, header(s, Step::At(0), key)))
}

/// The flag of a line with a flag as its payload.
pub open spec fn flag_of(s: Seq<u8>, key: Seq<char>) -> char {
    s[header(s, Step::At(0), key).at()] as char
}

/// A line whose payload is a run of bytes of a class.
pub open spec fn run_line(s: Seq<u8>, key: Seq<char>, class: Class) -> Step {
    line_end(s, run(s, header(s, Step::At(0), key), class))
}

/// The payload of a line whose payload is a run of bytes of a class.
pub open spec fn run_of(s: Seq<u8>, key: Seq<char>, class: Class) -> Seq<char> {
    word(s, header(s, Step::At(0), key).at(), run(s, header(s, Step::At(0), key), class).at())
}

/// The number that the payload of a line of digits spells.
pub open spec fn number_of(s: Seq<u8>, key: Seq<char>) -> nat {
    number(
        s,
        header(s, Step::At(0), key).at(),
        run(s, header(s, Step::At(0), key), Class::Digit).at(),
    )
}

/// A line whose payload is a number of at most `max`. Fails at the number
/// where it is larger.
pub open spec fn number_line(s: Seq<u8>, key: Seq<char>, max: nat) -> Step {
    check(
        run_line(s, key, Class::Digit),
        number_of(s, key) <= max,
        header(s, Step::At(0), key).at(),
    )
}

/// `<contno>_KAL|<0|1>`: the controller is alive.
pub open spec fn spec_kal(s: Seq<u8>) -> Parsed<OWView> {
    finish(
        flag_line(s, "KAL"@),
        OWView { contno: contno_at(s, 0), msg: MsgView::Keepalive(flag_of(s, "KAL"@)) },
    )
}

/// `<contno>_INF|<HH:MM:SS>`: a time stamp of the controller.
pub open spec fn spec_inf(s: Seq<u8>) -> Parsed<OWView> {
    finish(
        run_line(s, "INF"@, Class::Time),
        OWView { contno: contno_at(s, 0), msg: MsgView::Inf(run_of(s, "INF"@, Class::Time)) },
    )
}

/// `<contno>_ERR|<code>`: the controller refused a command. The code is at
/// most 65535.
pub open spec fn spec_err(s: Seq<u8>) -> Parsed<OWView> {
    finish(
        number_line(s, "ERR"@, 65535),
        OWView { contno: contno_at(s, 0), msg: MsgView::Error(number_of(s, "ERR"@) as u16) },
    )
}

/// `<contno>_EVT|<HH:MM:SS>`: the time stamp of an event.
pub open spec fn spec_evt(s: Seq<u8>) -> Parsed<OWView> {
    finish(
        run_line(s, "EVT"@, Class::Time),
        OWView { contno: contno_at(s, 0), msg: MsgView::Evt(run_of(s, "EVT"@, Class::Time)) },
    )
}

/// `<contno>_RST|<0|1>`: the controller was reset.
pub open spec fn spec_rst(s: Seq<u8>) -> Parsed<OWView> {
    finish(
        flag_line(s, "RST"@),
        OWView { contno: contno_at(s, 0), msg: MsgView::Rst(flag_of(s, "RST"@)) },
    )
}

/// `<contno>_RDY|<0|1>`: the controller is ready.
pub open spec fn spec_rdy(s: Seq<u8>) -> Parsed<OWView> {
    finish(
        flag_line(s, "RDY"@),
        OWView { contno: contno_at(s, 0), msg: MsgView::Rdy(flag_of(s, "RDY"@)) },
    )
}

/// `<contno>_SAVE|<0|1>`: the settings were saved.
pub open spec fn spec_save(s: Seq<u8>) -> Parsed<OWView> {
    finish(
        flag_line(s, "SAVE"@),
        OWView { contno: contno_at(s, 0), msg: MsgView::Save(flag_of(s, "SAVE"@)) },
    )
}

/// `<contno>_DATAPRINT|<0|1>`: the output format was set.
pub open spec fn spec_dataprint(s: Seq<u8>) -> Parsed<OWView> {
    finish(
        flag_line(s, "DATAPRINT"@),
        OWView { contno: contno_at(s, 0), msg: MsgView::Dataprint(flag_of(s, "DATAPRINT"@)) },
    )
}

/// `<contno>_DATATIME|<seconds>`: the reporting interval was set. It is at
/// most 255.
pub open spec fn spec_datatime(s: Seq<u8>) -> Parsed<OWView> {
    finish(
        number_line(s, "DATATIME"@, 255),
        OWView {
            contno: contno_at(s, 0),
            msg: MsgView::Datatime(number_of(s, "DATATIME"@) as u8),
        },
    )
}

/// `<contno>_DATE|<dd.mm.yy>`: the controller's date.
pub open spec fn spec_date(s: Seq<u8>) -> Parsed<OWView> {
    finish(
        run_line(s, "DATE"@, Class::Date),
        OWView { contno: contno_at(s, 0), msg: MsgView::Date(run_of(s, "DATE"@, Class::Date)) },
    )
}

/// `<contno>_TIME|<HH:MM:SS>`: the controller's time.
pub open spec fn spec_time(s: Seq<u8>) -> Parsed<OWView> {
    finish(
        run_line(s, "TIME"@, Class::Time),
        OWView { contno: contno_at(s, 0), msg: MsgView::Time(run_of(s, "TIME"@, Class::Time)) },
    )
}

/// Reads a line with a flag as its payload.
fn read_flag(i: &[u8], key: &str) -> (r: (Scan, u8, char))
    requires
        is_ascii(key),
    ensures
        r.0@ == flag_line(i@, key@),
        r.0 matches Scan::At(e) ==> 0 < e <= i@.len() && r.1 == contno_at(i@, 0) && r.2 == flag_of(
            i@,
            key@,
        ),
{
    let (h, n) = scan_header(i, Scan::At(0), key);
    let f = scan_flag(i, h);
    let e = scan_line_end(i, f);
    match (h, e) {
        (Scan::At(p), Scan::At(_)) => (e, n, i[p] as char),
        _ => (e, n, '0'),
    }
}

/// Reads a line whose payload is a run of bytes of a class.
fn read_run(i: &[u8], key: &str, class: Class) -> (r: (Scan, u8, usize, usize))
    requires
        is_ascii(key),
        class != Class::Text,
    ensures
        r.0@ == run_line(i@, key@, class),
        r.0 matches Scan::At(e) ==> 0 < e <= i@.len() && r.1 == contno_at(i@, 0) && r.2 <= r.3
            <= i@.len() && r.2 == header(i@, Step::At(0), key@).at() && r.3 == run(
            i@,
            header(i@, Step::At(0), key@),
            class,
        ).at() && r.3 == scan::span_end(i@, r.2 as int, class),
{
    let (h, n) = scan_header(i, Scan::At(0), key);
    let t = scan_run(i, h, class);
    let e = scan_line_end(i, t);
    match (h, t, e) {
        (Scan::At(a), Scan::At(b), Scan::At(_)) => (e, n, a, b),
        _ => (e, n, 0, 0),
    }
}

/// The text of a run of ASCII bytes of a class.
fn run_text(i: &[u8], a: usize, b: usize, class: Class) -> (t: String)
    requires
        a <= b <= i@.len(),
        b == scan::span_end(i@, a as int, class),
        class != Class::Text,
    ensures
        t@ == word(i@, a as int, b as int),
{
    proof {
        lemma_run_ascii(i@, a as int, class);
    }
    ascii_string(i, a, b)
}

/// Reads a line whose payload is a number of at most `max`.
fn read_number_line(i: &[u8], key: &str, max: u64) -> (r: (Scan, u8, u64))
    requires
        is_ascii(key),
        max < 1_000_000_000_000_000_000,
    ensures
        r.0@ == number_line(i@, key@, max as nat),
        r.0 matches Scan::At(e) ==> 0 < e <= i@.len() && r.1 == contno_at(i@, 0) && r.2
            == number_of(i@, key@) && r.2 <= max,
{
    let (e, n, a, b) = read_run(i, key, Class::Digit);
    match e {
        Scan::At(_) => {
            proof {
                lemma_span_end(i@, a as int, Class::Digit);
            }
            match read_number(i, a, b, max) {
                Some(v) => (e, n, v),
                None => (Scan::Fail(a), n, 0),
            }
        },
        _ => (e, n, 0),
    }
}

/// Reads a keepalive.
pub fn kal(i: &[u8]) -> (r: PResult)
    ensures
        r@ == spec_kal(i@),
{
    proof {
        reveal_strlit("KAL");
    }
    let (e, contno, c) = read_flag(i, "KAL");
    match e {
        Scan::At(consumed) => PResult::Done { consumed, msg: OW { contno, msg: Msg::Keepalive(c) } },
        _ => unfinished(e),
    }
}

/// Reads an info time stamp.
pub fn inf(i: &[u8]) -> (r: PResult)
    ensures
        r@ == spec_inf(i@),
{
    proof {
        reveal_strlit("INF");
    }
    let (e, contno, a, b) = read_run(i, "INF", Class::Time);
    match e {
        Scan::At(consumed) => PResult::Done {
            consumed,
            msg: OW { contno, msg: Msg::Inf(run_text(i, a, b, Class::Time)) },
        },
        _ => unfinished(e),
    }
}

/// Reads a controller error.
pub fn err(i: &[u8]) -> (r: PResult)
    ensures
        r@ == spec_err(i@),
{
    proof {
        reveal_strlit("ERR");
    }
    let (e, contno, v) = read_number_line(i, "ERR", 65535);
    match e {
        Scan::At(consumed) => PResult::Done {
            consumed,
            msg: OW { contno, msg: Msg::Error(v as u16) },
        },
        _ => unfinished(e),
    }
}

/// Reads an event time stamp.
pub fn evt(i: &[u8]) -> (r: PResult)
    ensures
        r@ == spec_evt(i@),
{
    proof {
        reveal_strlit("EVT");
    }
    let (e, contno, a, b) = read_run(i, "EVT", Class::Time);
    match e {
        Scan::At(consumed) => PResult::Done {
            consumed,
            msg: OW { contno, msg: Msg::Evt(run_text(i, a, b, Class::Time)) },
        },
        _ => unfinished(e),
    }
}

/// Reads a reset notice.
pub fn rst(i: &[u8]) -> (r: PResult)
    ensures
        r@ == spec_rst(i@),
{
    proof {
        reveal_strlit("RST");
    }
    let (e, contno, c) = read_flag(i, "RST");
    match e {
        Scan::At(consumed) => PResult::Done { consumed, msg: OW { contno, msg: Msg::Rst(c) } },
        _ => unfinished(e),
    }
}

/// Reads a ready notice.
pub fn rdy(i: &[u8]) -> (r: PResult)
    ensures
        r@ == spec_rdy(i@),
{
    proof {
        reveal_strlit("RDY");
    }
    let (e, contno, c) = read_flag(i, "RDY");
    match e {
        Scan::At(consumed) => PResult::Done { consumed, msg: OW { contno, msg: Msg::Rdy(c) } },
        _ => unfinished(e),
    }
}

/// Reads the acknowledgement of a save.
pub fn save(i: &[u8]) -> (r: PResult)
    ensures
        r@ == spec_save(i@),
{
    proof {
        reveal_strlit("SAVE");
    }
    let (e, contno, c) = read_flag(i, "SAVE");
    match e {
        Scan::At(consumed) => PResult::Done { consumed, msg: OW { contno, msg: Msg::Save(c) } },
        _ => unfinished(e),
    }
}

/// Reads the acknowledgement of the output format.
pub fn dataprint(i: &[u8]) -> (r: PResult)
    ensures
        r@ == spec_dataprint(i@),
{
    proof {
        reveal_strlit("DATAPRINT");
    }
    let (e, contno, c) = read_flag(i, "DATAPRINT");
    match e {
        Scan::At(consumed) => PResult::Done { consumed, msg: OW { contno, msg: Msg::Dataprint(c) } },
        _ => unfinished(e),
    }
}

/// Reads the acknowledgement of the reporting interval.
pub fn datatime(i: &[u8]) -> (r: PResult)
    ensures
        r@ == spec_datatime(i@),
{
    proof {
        reveal_strlit("DATATIME");
    }
    let (e, contno, v) = read_number_line(i, "DATATIME", 255);
    match e {
        Scan::At(consumed) => PResult::Done {
            consumed,
            msg: OW { contno, msg: Msg::Datatime(v as u8) },
        },
        _ => unfinished(e),
    }
}

/// Reads the controller's date.
pub fn date(i: &[u8]) -> (r: PResult)
    ensures
        r@ == spec_date(i@),
{
    proof {
        reveal_strlit("DATE");
    }
    let (e, contno, a, b) = read_run(i, "DATE", Class::Date);
    match e {
        Scan::At(consumed) => PResult::Done {
            consumed,
            msg: OW { contno, msg: Msg::Date(run_text(i, a, b, Class::Date)) },
        },
        _ => unfinished(e),
    }
}

/// Reads the controller's time.
pub fn time(i: &[u8]) -> (r: PResult)
    ensures
        r@ == spec_time(i@),
{
    proof {
        reveal_strlit("TIME");
    }
    let (e, contno, a, b) = read_run(i, "TIME", Class::Time);
    match e {
        Scan::At(consumed) => PResult::Done {
            consumed,
            msg: OW { contno, msg: Msg::Time(run_text(i, a, b, Class::Time)) },
        },
        _ => unfinished(e),
    }
}


/// A line whose payload is any text.
pub open spec fn value_line(s: Seq<u8>, from: Step, key: Seq<char>) -> Step {
    line_end(s, rest_of_line(s, header(s, from, key)))
}

/// The payload of a line whose payload is any text. Bytes that are no UTF-8
/// are replaced as `String::from_utf8_lossy` replaces them.
pub open spec fn value_of(s: Seq<u8>, from: Step, key: Seq<char>) -> Seq<char> {
    lossy_text(
        s.subrange(header(s, from, key).at(), rest_of_line(s, header(s, from, key)).at()),
    )
}

/// The key of line `n` of the system information.
pub open spec fn csi_key(n: nat) -> Seq<char> {
    if n == 1 {
        "CSI"@
    } else if n == 2 {
        "DATE"@
    } else if n == 3 {
        "TIME"@
    } else if n == 4 {
        "ARTNO"@
    } else if n == 5 {
        "SERNO"@
    } else if n == 6 {
        "FW"@
    } else if n == 7 {
        "HW"@
    } else {
        "CONTNO"@
    }
}

/// Where the first `n` lines of the system information end.
pub open spec fn csi_lines(s: Seq<u8>, n: nat) -> Step
    decreases n,
{
    if n == 0 {
        Step::At(0)
    } else {
        value_line(s, csi_lines(s, (n - 1) as nat), csi_key(n))
    }
}

/// The payload of line `n` of the system information.
pub open spec fn csi_value(s: Seq<u8>, n: nat) -> Seq<char> {
    value_of(s, csi_lines(s, (n - 1) as nat), csi_key(n))
}

/// Where the number in the last line of the system information begins.
pub open spec fn csi_last(s: Seq<u8>) -> Step {
    header(s, csi_lines(s, 7), csi_key(8))
}

/// The number in the last line of the system information.
pub open spec fn csi_number(s: Seq<u8>) -> nat {
    number(s, csi_last(s).at(), run(s, csi_last(s), Class::Digit).at())
}

/// The system information of a controller, eight lines with the keys `CSI`,
/// `DATE`, `TIME`, `ARTNO`, `SERNO`, `FW`, `HW` and `CONTNO`. The controller's
/// number is the payload of the last line, at most 255.
pub open spec fn spec_csi(s: Seq<u8>) -> Parsed<OWView> {
    finish(
        check(
            line_end(s, run(s, csi_last(s), Class::Digit)),
            csi_number(s) <= 255,
            csi_last(s).at(),
        ),
        OWView {
            contno: csi_number(s) as u8,
            msg: MsgView::CSI(
                CSIView {
                    date: csi_value(s, 2),
                    time: csi_value(s, 3),
                    artno: csi_value(s, 4),
                    serno: csi_value(s, 5),
                    fw: csi_value(s, 6),
                    hw: csi_value(s, 7),
                },
            ),
        },
    )
}

/// Reads a line whose payload is any text.
fn read_value(i: &[u8], from: Scan, key: &str) -> (r: (Scan, String))
    requires
        from matches Scan::At(p) ==> p <= i@.len(),
        is_ascii(key),
    ensures
        r.0@ == value_line(i@, from@, key@),
        r.0 matches Scan::At(e) ==> 0 < e <= i@.len() && r.1@ == value_of(i@, from@, key@),
{
    let (h, _) = scan_header(i, from, key);
    let t = scan_rest_of_line(i, h);
    let e = scan_line_end(i, t);
    match (h, t, e) {
        (Scan::At(a), Scan::At(b), Scan::At(_)) => (e, decode_lossy(slice_subrange(i, a, b))),
        _ => (e, String::new()),
    }
}

/// The key of line `n` of the system information.
fn csi_key_text(n: u8) -> (k: &'static str)
    ensures
        k@ == csi_key(n as nat),
        is_ascii(k),
{
    proof {
        reveal_strlit("CSI");
        reveal_strlit("DATE");
        reveal_strlit("TIME");
        reveal_strlit("ARTNO");
        reveal_strlit("SERNO");
        reveal_strlit("FW");
        reveal_strlit("HW");
        reveal_strlit("CONTNO");
    }
    if n == 1 {
        "CSI"
    } else if n == 2 {
        "DATE"
    } else if n == 3 {
        "TIME"
    } else if n == 4 {
        "ARTNO"
    } else if n == 5 {
        "SERNO"
    } else if n == 6 {
        "FW"
    } else if n == 7 {
        "HW"
    } else {
        "CONTNO"
    }
}

/// Reads line `n` of the system information, which begins at `from`.
fn csi_line(i: &[u8], from: Scan, n: u8) -> (r: (Scan, String))
    requires
        1 <= n <= 7,
        from@ == csi_lines(i@, (n - 1) as nat),
        from matches Scan::At(p) ==> p <= i@.len(),
    ensures
        r.0@ == csi_lines(i@, n as nat),
        r.0 matches Scan::At(e) ==> 0 < e <= i@.len() && r.1@ == csi_value(i@, n as nat),
{
    read_value(i, from, csi_key_text(n))
}

/// Reads the last line of the system information, which begins at `from`.
fn csi_contno(i: &[u8], from: Scan) -> (r: (Scan, u8))
    requires
        from@ == csi_lines(i@, 7),
        from matches Scan::At(p) ==> p <= i@.len(),
    ensures
        r.0@ == check(
            line_end(i@, run(i@, csi_last(i@), Class::Digit)),
            csi_number(i@) <= 255,
            csi_last(i@).at(),
        ),
        r.0 matches Scan::At(e) ==> 0 < e <= i@.len() && r.1 == csi_number(i@),
{
    let (h, _) = scan_header(i, from, csi_key_text(8));
    let d = scan_run(i, h, Class::Digit);
    let e = scan_line_end(i, d);
    match (h, d, e) {
        (Scan::At(a), Scan::At(b), Scan::At(_)) => {
            proof {
                lemma_span_end(i@, a as int, Class::Digit);
            }
            match read_number(i, a, b, 255) {
                Some(n) => (e, n as u8),
                None => (Scan::Fail(a), 0),
            }
        },
        _ => (e, 0),
    }
}

/// Reads the system information of a controller.
pub fn csi(i: &[u8]) -> (r: PResult)
    ensures
        r@ == spec_csi(i@),
{
    let (l1, _) = csi_line(i, Scan::At(0), 1);
    let (l2, date) = csi_line(i, l1, 2);
    let (l3, time) = csi_line(i, l2, 3);
    let (l4, artno) = csi_line(i, l3, 4);
    let (l5, serno) = csi_line(i, l4, 5);
    let (l6, fw) = csi_line(i, l5, 6);
    let (l7, hw) = csi_line(i, l6, 7);
    let (e, contno) = csi_contno(i, l7);
    match e {
        Scan::At(consumed) => {
            proof {
                lemma_csi_lines_down(i@, 7);
            }
            PResult::Done {
                consumed,
                msg: OW { contno, msg: Msg::CSI(CSI { date, time, artno, serno, fw, hw }) },
            }
        },
        _ => unfinished(e),
    }
}

/// Where a line of the system information was read, the lines before it were.
proof fn lemma_csi_lines_down(s: Seq<u8>, n: nat)
    requires
        csi_lines(s, n) is At,
    ensures
        forall|k: nat| k <= n ==> #[trigger] csi_lines(s, k) is At,
    decreases n,
{
    if n > 0 {
        assert(csi_lines(s, n) == value_line(s, csi_lines(s, (n - 1) as nat), csi_key(n)));
        lemma_csi_lines_down(s, (n - 1) as nat);
    }
}

/// An optional minus sign. Short of input at the end of the input.
pub open spec fn minus(s: Seq<u8>, from: Step) -> Step {
    match from {
        Step::At(p) => if p >= s.len() {
            Step::Incomplete
        } else if s[p] == 45 {
            Step::At(p + 1)
        } else {
            Step::At(p)
        },
        other => other,
    }
}

/// Where the bus address of a device status ends.
pub open spec fn status_addr(s: Seq<u8>) -> Step {
    run(s, contno(s, Step::At(0)), Class::Ident)
}

/// Where the digits of a device status begin.
pub open spec fn status_sign(s: Seq<u8>) -> Step {
    minus(s, byte(s, status_addr(s), 124))
}

/// The magnitude of the value of a device status.
pub open spec fn status_number(s: Seq<u8>) -> nat {
    number(s, status_sign(s).at(), run(s, status_sign(s), Class::Digit).at())
}

/// `<contno>_<address>|<value>`: a device reports a value under a bus
/// address. The address is made of letters, digits and `_`; the value is an
/// integer whose magnitude is at most 2147483647, with or without a minus
/// sign. A larger value fails at the start.
pub open spec fn spec_devstatus(s: Seq<u8>) -> Parsed<OWView> {
    finish(
        check(line_end(s, run(s, status_sign(s), Class::Digit)), status_number(s) <= 2147483647, 0),
        OWView {
            contno: contno_at(s, 0),
            msg: MsgView::Devstatus(
                DevstatusView {
                    addr: word(s, contno(s, Step::At(0)).at(), status_addr(s).at()),
                    val: if status_sign(s).at() > status_addr(s).at() + 1 {
                        (-status_number(s)) as i32
                    } else {
                        status_number(s) as i32
                    },
                },
            ),
        },
    )
}

/// Reads a device status.
pub fn devstatus(i: &[u8]) -> (r: PResult)
    ensures
        r@ == spec_devstatus(i@),
{
    let (c, contno) = scan_contno(i, Scan::At(0));
    let a = scan_run(i, c, Class::Ident);
    let b = scan_byte(i, a, 124);
    let m = match b {
        Scan::At(p) => if p >= i.len() {
            Scan::Incomplete
        } else if i[p] == 45 {
            Scan::At(p + 1)
        } else {
            Scan::At(p)
        },
        other => other,
    };
    let d = scan_run(i, m, Class::Digit);
    let e = scan_line_end(i, d);
    match (c, a, b, m, d, e) {
        (Scan::At(c), Scan::At(a), Scan::At(b), Scan::At(m), Scan::At(d), Scan::At(consumed)) => {
            proof {
                lemma_span_end(i@, m as int, Class::Digit);
            }
            match read_number(i, m, d, 2147483647) {
                Some(n) => {
                    let val: i32 = if m > b {
                        -(n as i64) as i32
                    } else {
                        n as i32
                    };
                    PResult::Done {
                        consumed,
                        msg: OW {
                            contno,
                            msg: Msg::Devstatus(
                                Devstatus { addr: run_text(i, c, a, Class::Ident), val },
                            ),
                        },
                    }
                },
                None => PResult::Error { offset: 0 },
            }
        },
        _ => unfinished(e),
    }
}

/// Where the digits of an I/O mode begin.
pub open spec fn dio_start(s: Seq<u8>) -> Step {
    tag(s, contno(s, Step::At(0)), "DIO|"@)
}

/// The digits of an I/O mode.
pub open spec fn dio_word(s: Seq<u8>) -> Seq<char> {
    word(s, dio_start(s).at(), run(s, dio_start(s), Class::Digit).at())
}

/// `<contno>_DIO|<0..3>`: the controller's I/O mode. Another number fails at
/// the start.
pub open spec fn spec_dio(s: Seq<u8>) -> Parsed<OWView> {
    finish(
        check(line_end(s, run(s, dio_start(s), Class::Digit)), dio_of(dio_word(s)) is Some, 0),
        OWView { contno: contno_at(s, 0), msg: MsgView::DIO(dio_of(dio_word(s))->Some_0) },
    )
}

/// Reads the controller's I/O mode.
pub fn dio(i: &[u8]) -> (r: PResult)
    ensures
        r@ == spec_dio(i@),
{
    proof {
        reveal_strlit("DIO|");
    }
    let (c, contno) = scan_contno(i, Scan::At(0));
    let t = scan_tag(i, c, "DIO|");
    let d = scan_run(i, t, Class::Digit);
    let e = scan_line_end(i, d);
    match (t, d, e) {
        (Scan::At(a), Scan::At(b), Scan::At(consumed)) => {
            let text = run_text(i, a, b, Class::Digit);
            match DIO::from_text(text.as_str()) {
                Some(mode) => PResult::Done { consumed, msg: OW { contno, msg: Msg::DIO(mode) } },
                None => PResult::Error { offset: 0 },
            }
        },
        _ => unfinished(e),
    }
}

/// Where the slot number of a status change begins.
pub open spec fn owd_start(s: Seq<u8>) -> Step {
    tag(s, contno(s, Step::At(0)), "OWD_"@)
}

/// Where the status code of a status change begins.
pub open spec fn owd_code(s: Seq<u8>) -> Step {
    byte(s, run(s, owd_start(s), Class::Digit), 124)
}

/// The slot number of a status change.
pub open spec fn owd_number(s: Seq<u8>) -> nat {
    number(s, owd_start(s).at(), run(s, owd_start(s), Class::Digit).at())
}

/// The status code of a status change.
pub open spec fn owd_word(s: Seq<u8>) -> Seq<char> {
    word(s, owd_code(s).at(), run(s, owd_code(s), Class::Digit).at())
}

/// `<contno>_OWD_<slot>|<code>`: the device in a slot changed its status.
/// A slot beyond 255 or a code that is no status code fails at the start.
pub open spec fn spec_owdstatus(s: Seq<u8>) -> Parsed<OWView> {
    finish(
        check(
            line_end(s, run(s, owd_code(s), Class::Digit)),
            owd_number(s) <= 255 && status_of(owd_word(s)) is Some,
            0,
        ),
        OWView {
            contno: contno_at(s, 0),
            msg: MsgView::OWDStatus(
                OWDStatus { owd: owd_number(s) as u8, status: status_of(owd_word(s))->Some_0 },
            ),
        },
    )
}

/// Reads a status change.
pub fn owdstatus(i: &[u8]) -> (r: PResult)
    ensures
        r@ == spec_owdstatus(i@),
{
    proof {
        reveal_strlit("OWD_");
    }
    let (c, contno) = scan_contno(i, Scan::At(0));
    let t = scan_tag(i, c, "OWD_");
    let n = scan_run(i, t, Class::Digit);
    let b = scan_byte(i, n, 124);
    let st = scan_run(i, b, Class::Digit);
    let e = scan_line_end(i, st);
    match (t, n, b, st, e) {
        (Scan::At(t), Scan::At(n), Scan::At(b), Scan::At(st), Scan::At(consumed)) => {
            proof {
                lemma_span_end(i@, t as int, Class::Digit);
            }
            let owd = read_number(i, t, n, 255);
            let text = run_text(i, b, st, Class::Digit);
            match (owd, Status::from_text(text.as_str())) {
                (Some(owd), Some(status)) => PResult::Done {
                    consumed,
                    msg: OW { contno, msg: Msg::OWDStatus(OWDStatus { owd: owd as u8, status }) },
                },
                _ => PResult::Error { offset: 0 },
            }
        },
        _ => unfinished(e),
    }
}


/// The message at the start of some bytes: the first of keepalive, info,
/// error, event, reset, ready, save, dataprint, datatime, date, time, device
/// list, system information, I/O mode, status change and device status that
/// is no error there. Where all fail, the bytes fail as a device status.
#[verifier::opaque]
pub open spec fn spec_parse(s: Seq<u8>) -> Parsed<OWView> {
    or_else(
        spec_kal(s),
        or_else(
            spec_inf(s),
            or_else(
                spec_err(s),
                or_else(
                    spec_evt(s),
                    or_else(
                        spec_rst(s),
                        or_else(
                            spec_rdy(s),
                            or_else(
                                spec_save(s),
                                or_else(
                                    spec_dataprint(s),
                                    or_else(
                                        spec_datatime(s),
                                        or_else(
                                            spec_date(s),
                                            or_else(
                                                spec_time(s),
                                                or_else(
                                                    spec_lst3(s),
                                                    or_else(
                                                        spec_csi(s),
                                                        or_else(
                                                            spec_dio(s),
                                                            or_else(
                                                                spec_owdstatus(s),
                                                                spec_devstatus(s),
                                                            ),
                                                        ),
                                                    ),
                                                ),
                                            ),
                                        ),
                                    ),
                                ),
                            ),
                        ),
                    ),
                ),
            ),
        ),
    )
}

/// Reads the message at the start of the bytes that have arrived.
pub fn parse(i: &[u8]) -> (r: PResult)
    ensures
        r@ == spec_parse(i@),
        r matches PResult::Done { consumed, .. } ==> 0 < consumed <= i@.len(),
{
    proof {
        law_whole_lines(i@);
        reveal(spec_parse);
    }
    let r = kal(i);
    if !is_error(&r) {
        return r;
    }
    let r = inf(i);
    if !is_error(&r) {
        return r;
    }
    let r = err(i);
    if !is_error(&r) {
        return r;
    }
    let r = evt(i);
    if !is_error(&r) {
        return r;
    }
    let r = rst(i);
    if !is_error(&r) {
        return r;
    }
    let r = rdy(i);
    if !is_error(&r) {
        return r;
    }
    let r = save(i);
    if !is_error(&r) {
        return r;
    }
    let r = dataprint(i);
    if !is_error(&r) {
        return r;
    }
    let r = datatime(i);
    if !is_error(&r) {
        return r;
    }
    let r = date(i);
    if !is_error(&r) {
        return r;
    }
    let r = time(i);
    if !is_error(&r) {
        return r;
    }
    let r = lst3(i);
    if !is_error(&r) {
        return r;
    }
    let r = csi(i);
    if !is_error(&r) {
        return r;
    }
    let r = dio(i);
    if !is_error(&r) {
        return r;
    }
    let r = owdstatus(i);
    if !is_error(&r) {
        return r;
    }
    devstatus(i)
}

/// Whether a reading is an error.
fn is_error(r: &PResult) -> (b: bool)
    ensures
        b == (r@ is Error),
{
    match r {
        PResult::Error { .. } => true,
        _ => false,
    }
}

/// A message that was read ends with a line.
pub open spec fn whole_lines(s: Seq<u8>, r: Parsed<OWView>) -> bool {
    r matches Parsed::Done { used, .. } ==> 0 < used <= s.len() && s[used - 1] == 10
}

/// Every message that is read takes at least one byte, takes no more than
/// there are, and ends with a line feed.
pub proof fn law_whole_lines(s: Seq<u8>)
    ensures
        whole_lines(s, spec_parse(s)),
{
    reveal(spec_parse);
    lemma_flag_lines(s);
    lemma_run_lines(s);
    lemma_other_lines(s);
    list::lemma_list_lines(s);
}

proof fn lemma_flag_lines(s: Seq<u8>)
    ensures
        whole_lines(s, spec_kal(s)),
        whole_lines(s, spec_rst(s)),
        whole_lines(s, spec_rdy(s)),
        whole_lines(s, spec_save(s)),
        whole_lines(s, spec_dataprint(s)),
{
    scan::lemma_steps(s);
    assert(scan::within(s, Step::At(0)));
}

proof fn lemma_run_lines(s: Seq<u8>)
    ensures
        whole_lines(s, spec_inf(s)),
        whole_lines(s, spec_err(s)),
        whole_lines(s, spec_evt(s)),
        whole_lines(s, spec_datatime(s)),
        whole_lines(s, spec_date(s)),
        whole_lines(s, spec_time(s)),
{
    scan::lemma_steps(s);
    assert(scan::within(s, Step::At(0)));
}

proof fn lemma_other_lines(s: Seq<u8>)
    ensures
        whole_lines(s, spec_csi(s)),
        whole_lines(s, spec_dio(s)),
        whole_lines(s, spec_owdstatus(s)),
        whole_lines(s, spec_devstatus(s)),
{
    scan::lemma_steps(s);
    assert(scan::within(s, Step::At(0)));
    assert(scan::within(s, minus(s, byte(s, status_addr(s), 124))));
    assert(scan::within(s, csi_lines(s, 7))) by {
        reveal_with_fuel(csi_lines, 8);
    }
}


/// A reading of the longer input that is the reading of the shorter one,
/// unless that asked for more.
pub open spec fn keeps<T>(short: Parsed<T>, long: Parsed<T>) -> bool {
    short is Incomplete || long == short
}

proof fn lemma_flags_stay(s: Seq<u8>, t: Seq<u8>, key: Seq<char>)
    requires
        scan::extends(t, s),
    ensures
        scan::stays(flag_line(s, key), flag_line(t, key)),
        flag_line(s, key) is At ==> flag_of(t, key) == flag_of(s, key) && contno_at(t, 0)
            == contno_at(s, 0),
{
    scan::lemma_steps(s);
    scan::lemma_steps_stay(s, t);
    scan::lemma_heads_stay(s, t);
    let h = header(s, Step::At(0), key);
    assert(scan::within(s, Step::At(0)));
    assert(scan::stays(h, header(t, Step::At(0), key)));
    assert(scan::within(s, h));
    assert(scan::stays(flag(s, h), flag(t, h)));
    assert(scan::within(s, flag(s, h)));
    if flag_line(s, key) is At {
        lemma_contno_stays(s, t, key);
    }
}

/// Where a head was read, the controller number in it is the same on a
/// longer input.
proof fn lemma_contno_stays(s: Seq<u8>, t: Seq<u8>, key: Seq<char>)
    requires
        scan::extends(t, s),
        header(s, Step::At(0), key) is At,
    ensures
        contno_at(t, 0) == contno_at(s, 0),
{
    scan::lemma_steps(s);
    scan::lemma_steps_stay(s, t);
    assert(scan::within(s, Step::At(0)));
    assert(run(s, Step::At(0), Class::Digit) is At);
}

proof fn lemma_runs_stay(s: Seq<u8>, t: Seq<u8>, key: Seq<char>, class: Class)
    requires
        scan::extends(t, s),
    ensures
        scan::stays(run_line(s, key, class), run_line(t, key, class)),
        run_line(s, key, class) is At ==> run_of(t, key, class) == run_of(s, key, class)
            && contno_at(t, 0) == contno_at(s, 0),
        forall|max: nat| scan::stays(#[trigger] number_line(s, key, max), number_line(t, key, max)),
        run_line(s, key, Class::Digit) is At ==> number_of(t, key) == number_of(s, key),
{
    scan::lemma_steps(s);
    scan::lemma_steps_stay(s, t);
    scan::lemma_heads_stay(s, t);
    let h = header(s, Step::At(0), key);
    assert(scan::within(s, Step::At(0)));
    assert(scan::stays(h, header(t, Step::At(0), key)));
    assert(scan::within(s, h));
    assert(scan::stays(run(s, h, class), run(t, h, class)));
    assert(scan::within(s, run(s, h, class)));
    assert(scan::stays(run(s, h, Class::Digit), run(t, h, Class::Digit)));
    assert(scan::within(s, run(s, h, Class::Digit)));
    if run_line(s, key, class) is At {
        lemma_contno_stays(s, t, key);
        assert(t.subrange(h.at(), run(s, h, class).at()) == s.subrange(
            h.at(),
            run(s, h, class).at(),
        ));
    }
    if run_line(s, key, Class::Digit) is At {
        assert(t.subrange(h.at(), run(s, h, Class::Digit).at()) == s.subrange(
            h.at(),
            run(s, h, Class::Digit).at(),
        ));
    }
}

/// More input changes no single-line reading that did not ask for more.
proof fn lemma_lines_stay(s: Seq<u8>, t: Seq<u8>)
    requires
        scan::extends(t, s),
    ensures
        keeps(spec_kal(s), spec_kal(t)),
        keeps(spec_inf(s), spec_inf(t)),
        keeps(spec_err(s), spec_err(t)),
        keeps(spec_evt(s), spec_evt(t)),
        keeps(spec_rst(s), spec_rst(t)),
        keeps(spec_rdy(s), spec_rdy(t)),
        keeps(spec_save(s), spec_save(t)),
        keeps(spec_dataprint(s), spec_dataprint(t)),
        keeps(spec_datatime(s), spec_datatime(t)),
        keeps(spec_date(s), spec_date(t)),
        keeps(spec_time(s), spec_time(t)),
{
    lemma_flags_stay(s, t, "KAL"@);
    lemma_flags_stay(s, t, "RST"@);
    lemma_flags_stay(s, t, "RDY"@);
    lemma_flags_stay(s, t, "SAVE"@);
    lemma_flags_stay(s, t, "DATAPRINT"@);
    lemma_runs_stay(s, t, "INF"@, Class::Time);
    lemma_runs_stay(s, t, "EVT"@, Class::Time);
    lemma_runs_stay(s, t, "TIME"@, Class::Time);
    lemma_runs_stay(s, t, "DATE"@, Class::Date);
    lemma_runs_stay(s, t, "ERR"@, Class::Digit);
    lemma_runs_stay(s, t, "DATATIME"@, Class::Digit);
}

/// More input changes no line of the system information that did not ask
/// for more.
proof fn lemma_csi_lines_stay(s: Seq<u8>, t: Seq<u8>, n: nat)
    requires
        scan::extends(t, s),
        n <= 7,
    ensures
        scan::within(s, csi_lines(s, n)),
        scan::stays(csi_lines(s, n), csi_lines(t, n)),
        csi_lines(s, n) is At && n >= 1 ==> csi_value(t, n) == csi_value(s, n),
    decreases n,
{
    scan::lemma_steps(s);
    scan::lemma_steps_stay(s, t);
    scan::lemma_heads_stay(s, t);
    if n > 0 {
        lemma_csi_lines_stay(s, t, (n - 1) as nat);
        let from = csi_lines(s, (n - 1) as nat);
        let h = header(s, from, csi_key(n));
        assert(scan::stays(h, header(t, from, csi_key(n))));
        assert(scan::within(s, h));
        let r = rest_of_line(s, h);
        assert(scan::stays(r, rest_of_line(t, h)));
        assert(scan::within(s, r));
        assert(scan::stays(line_end(s, r), line_end(t, r)));
        if csi_lines(s, n) is At {
            assert(t.subrange(h.at(), r.at()) == s.subrange(h.at(), r.at()));
        }
    }
}

/// More input changes no reading of system information, I/O mode, status
/// change or device status that did not ask for more.
proof fn lemma_others_stay(s: Seq<u8>, t: Seq<u8>)
    requires
        scan::extends(t, s),
    ensures
        keeps(spec_csi(s), spec_csi(t)),
        keeps(spec_dio(s), spec_dio(t)),
        keeps(spec_owdstatus(s), spec_owdstatus(t)),
        keeps(spec_devstatus(s), spec_devstatus(t)),
{
    lemma_csi_stays(s, t);
    lemma_dio_stays(s, t);
    lemma_owdstatus_stays(s, t);
    lemma_devstatus_stays(s, t);
}

proof fn lemma_csi_stays(s: Seq<u8>, t: Seq<u8>)
    requires
        scan::extends(t, s),
    ensures
        keeps(spec_csi(s), spec_csi(t)),
{
    scan::lemma_steps(s);
    scan::lemma_steps_stay(s, t);
    scan::lemma_heads_stay(s, t);
    lemma_csi_lines_stay(s, t, 7);
    let l7 = csi_lines(s, 7);
    let h = csi_last(s);
    assert(scan::stays(h, csi_last(t)));
    assert(scan::within(s, h));
    let d = run(s, h, Class::Digit);
    assert(scan::stays(d, run(t, h, Class::Digit)));
    assert(scan::within(s, d));
    assert(scan::stays(line_end(s, d), line_end(t, d)));
    if line_end(s, d) is At {
        assert(t.subrange(h.at(), d.at()) == s.subrange(h.at(), d.at()));
        lemma_csi_lines_down(s, 7);
        lemma_csi_lines_stay(s, t, 1);
        lemma_csi_lines_stay(s, t, 2);
        lemma_csi_lines_stay(s, t, 3);
        lemma_csi_lines_stay(s, t, 4);
        lemma_csi_lines_stay(s, t, 5);
        lemma_csi_lines_stay(s, t, 6);
        assert(csi_lines(s, 1) is At && csi_lines(s, 2) is At && csi_lines(s, 3) is At);
        assert(csi_lines(s, 4) is At && csi_lines(s, 5) is At && csi_lines(s, 6) is At);
    }
}

proof fn lemma_dio_stays(s: Seq<u8>, t: Seq<u8>)
    requires
        scan::extends(t, s),
    ensures
        keeps(spec_dio(s), spec_dio(t)),
{
    scan::lemma_steps(s);
    scan::lemma_steps_stay(s, t);
    scan::lemma_heads_stay(s, t);
    assert(scan::within(s, Step::At(0)));
    let c = contno(s, Step::At(0));
    assert(scan::stays(c, contno(t, Step::At(0))));
    assert(scan::within(s, c));
    let g = dio_start(s);
    assert(scan::stays(g, dio_start(t)));
    assert(scan::within(s, g));
    let d = run(s, g, Class::Digit);
    assert(scan::stays(d, run(t, g, Class::Digit)));
    assert(scan::within(s, d));
    assert(scan::stays(line_end(s, d), line_end(t, d)));
    if line_end(s, d) is At {
        assert(t.subrange(g.at(), d.at()) == s.subrange(g.at(), d.at()));
        assert(run(s, Step::At(0), Class::Digit) is At);
    }
}

proof fn lemma_owdstatus_stays(s: Seq<u8>, t: Seq<u8>)
    requires
        scan::extends(t, s),
    ensures
        keeps(spec_owdstatus(s), spec_owdstatus(t)),
{
    scan::lemma_steps(s);
    scan::lemma_steps_stay(s, t);
    scan::lemma_heads_stay(s, t);
    assert(scan::within(s, Step::At(0)));
    let c = contno(s, Step::At(0));
    assert(scan::stays(c, contno(t, Step::At(0))));
    assert(scan::within(s, c));
    let g = owd_start(s);
    assert(scan::stays(g, owd_start(t)));
    assert(scan::within(s, g));
    let n = run(s, g, Class::Digit);
    assert(scan::stays(n, run(t, g, Class::Digit)));
    assert(scan::within(s, n));
    let b = owd_code(s);
    assert(scan::stays(b, owd_code(t)));
    assert(scan::within(s, b));
    let d = run(s, b, Class::Digit);
    assert(scan::stays(d, run(t, b, Class::Digit)));
    assert(scan::within(s, d));
    assert(scan::stays(line_end(s, d), line_end(t, d)));
    if line_end(s, d) is At {
        assert(t.subrange(g.at(), n.at()) == s.subrange(g.at(), n.at()));
        assert(t.subrange(b.at(), d.at()) == s.subrange(b.at(), d.at()));
        assert(run(s, Step::At(0), Class::Digit) is At);
    }
}

proof fn lemma_devstatus_stays(s: Seq<u8>, t: Seq<u8>)
    requires
        scan::extends(t, s),
    ensures
        keeps(spec_devstatus(s), spec_devstatus(t)),
{
    scan::lemma_steps(s);
    scan::lemma_steps_stay(s, t);
    scan::lemma_heads_stay(s, t);
    assert(scan::within(s, Step::At(0)));
    let c = contno(s, Step::At(0));
    assert(scan::stays(c, contno(t, Step::At(0))));
    assert(scan::within(s, c));
    let a = status_addr(s);
    assert(scan::stays(a, status_addr(t)));
    assert(scan::within(s, a));
    let b = byte(s, a, 124);
    assert(scan::stays(b, byte(t, a, 124)));
    assert(scan::within(s, b));
    let m = status_sign(s);
    assert(scan::stays(m, status_sign(t)));
    assert(scan::within(s, m));
    let d = run(s, m, Class::Digit);
    assert(scan::stays(d, run(t, m, Class::Digit)));
    assert(scan::within(s, d));
    assert(scan::stays(line_end(s, d), line_end(t, d)));
    if line_end(s, d) is At {
        assert(t.subrange(c.at(), a.at()) == s.subrange(c.at(), a.at()));
        assert(t.subrange(m.at(), d.at()) == s.subrange(m.at(), d.at()));
        assert(run(s, Step::At(0), Class::Digit) is At);
    }
}

/// What has been read stays read. Whatever arrives after some bytes, the
/// message that was read off them is read off the longer input too, with the
/// same content and the same number of bytes; and bytes that were no message
/// stay none, at the same offset. Only a reading that asked for more may
/// change.
pub proof fn law_more_input_changes_nothing(s: Seq<u8>, more: Seq<u8>)
    ensures
        keeps(spec_parse(s), spec_parse(s + more)),
{
    let t = s + more;
    assert(t.take(s.len() as int) =~= s);
    reveal(spec_parse);
    lemma_lines_stay(s, t);
    lemma_others_stay(s, t);
    list::lemma_list_stays(s, t);
}

/// Nothing can be said of no bytes: they are never an error.
pub proof fn lemma_error_needs_input(s: Seq<u8>)
    ensures
        spec_parse(s) is Error ==> s.len() > 0,
{
    reveal(spec_parse);
    if s.len() == 0 {
        assert(scan::span_end(s, 0, Class::Digit) == 0);
        assert(contno(s, Step::At(0)) == Step::Incomplete);
        assert(spec_kal(s) == Parsed::<OWView>::Incomplete);
    }
}

} // verus!
