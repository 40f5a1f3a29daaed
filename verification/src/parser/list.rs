//! The reader of the device list.
use super::scan::{
    byte, check, contno_at, extends, header, lemma_heads_stay, lemma_steps, lemma_steps_stay,
    line_end, rest_of_line, run, scan_byte, scan_header, scan_line_end, scan_rest_of_line,
    scan_run, scan_tag, stays, tag, within, word, Class, Scan, Step,
};
use super::{keeps, run_text, unfinished, whole_lines, PResult, Parsed};
use crate::info::{name_of, read_name, DeviceInfo, DeviceInfoView};
use crate::message::{status_of, Msg, MsgView, OWView, Status, OW};
use crate::text::{decimal, decode_lossy, lemma_decimal_digits, lossy_text, push_decimal};
use vstd::prelude::*;
use vstd::slice::slice_subrange;
use vstd::string::*;

verus! {

/// The most entries that a device list holds.
pub const MAX_ENTRIES: usize = 30;

/// What every entry of the list of controller `contno` begins with:
/// `LST|<contno>_`.
pub open spec fn entry_head(contno: u8) -> Seq<char> {
    "LST|"@ + decimal(contno as nat) + "_"@
}

/// Where the bus id of an entry ends.
pub open spec fn entry_busid(s: Seq<u8>, from: Step, contno: u8) -> Step {
    run(s, tag(s, from, entry_head(contno)), Class::Alnum)
}

/// Where the serial number of an entry ends.
pub open spec fn entry_serno(s: Seq<u8>, from: Step, contno: u8) -> Step {
    run(s, byte(s, entry_busid(s, from, contno), 124), Class::Alnum)
}

/// Where the status of an entry ends.
pub open spec fn entry_status(s: Seq<u8>, from: Step, contno: u8) -> Step {
    run(s, tag(s, entry_serno(s, from, contno), "|S_"@), Class::Ident)
}

/// Where the article number of an entry ends.
pub open spec fn entry_artno(s: Seq<u8>, from: Step, contno: u8) -> Step {
    run(s, byte(s, entry_status(s, from, contno), 124), Class::Alnum)
}

/// An optional name: a bar and the rest of the line. Without a bar, and where
/// the rest of the line fails, there is no name and nothing is taken.
pub open spec fn optional_name(s: Seq<u8>, from: Step) -> Step {
    match from {
        Step::At(p) => if p >= s.len() {
            Step::Incomplete
        } else if s[p] != 124 {
            Step::At(p)
        } else {
            match rest_of_line(s, Step::At(p + 1)) {
                Step::Fail(_) => Step::At(p),
                other => other,
            }
        },
        other => other,
    }
}

/// Where the name of an entry ends.
pub open spec fn entry_name(s: Seq<u8>, from: Step, contno: u8) -> Step {
    optional_name(s, entry_artno(s, from, contno))
}

/// The status word of an entry.
pub open spec fn entry_status_word(s: Seq<u8>, from: Step, contno: u8) -> Seq<char> {
    word(
        s,
        tag(s, entry_serno(s, from, contno), "|S_"@).at(),
        entry_status(s, from, contno).at(),
    )
}

/// One entry of a device list:
/// `LST|<contno>_<busid>|<serial>|S_<status>|<artno>[|<name>]`. Bus id,
/// serial number and article number are made of letters and digits. An entry
/// whose status is no status fails at its start.
pub open spec fn entry(s: Seq<u8>, from: Step, contno: u8) -> Step {
    check(
        line_end(s, entry_name(s, from, contno)),
        status_of(entry_status_word(s, from, contno)) is Some,
        from.at(),
    )
}

/// The name in an entry, as it stands there.
pub open spec fn entry_name_text(s: Seq<u8>, from: Step, contno: u8) -> Option<Seq<char>> {
    if entry_name(s, from, contno).at() > entry_artno(s, from, contno).at() {
        Some(
            lossy_text(
                s.subrange(
                    entry_artno(s, from, contno).at() + 1,
                    entry_name(s, from, contno).at(),
                ),
            ),
        )
    } else {
        None
    }
}

/// The device that an entry describes. Its name is the text after the
/// article number without surrounding white space, if anything is left.
pub open spec fn entry_info(s: Seq<u8>, from: Step, contno: u8) -> DeviceInfoView {
    DeviceInfoView {
        contno,
        busid: word(s, tag(s, from, entry_head(contno)).at(), entry_busid(s, from, contno).at()),
        serno: word(
            s,
            byte(s, entry_busid(s, from, contno), 124).at(),
            entry_serno(s, from, contno).at(),
        ),
        status: status_of(entry_status_word(s, from, contno))->Some_0,
        artno: word(
            s,
            byte(s, entry_status(s, from, contno), 124).at(),
            entry_artno(s, from, contno).at(),
        ),
        name: name_of(entry_name_text(s, from, contno)),
    }
}

/// Entries put before a list that was read.
pub open spec fn prepend(
    first: Seq<DeviceInfoView>,
    rest: Parsed<Seq<DeviceInfoView>>,
) -> Parsed<Seq<DeviceInfoView>> {
    match rest {
        Parsed::Done { used, value } => Parsed::Done { used, value: first + value },
        other => other,
    }
}

/// At most `left` entries, beginning at `p`. The list ends before the first
/// line that is no entry. Short of input while the next line may still
/// become an entry.
pub open spec fn entries(s: Seq<u8>, p: int, contno: u8, left: nat) -> Parsed<Seq<DeviceInfoView>>
    decreases left,
{
    if left == 0 {
        Parsed::Done { used: p, value: Seq::empty() }
    } else {
        match entry(s, Step::At(p), contno) {
            Step::At(q) => prepend(
                seq![entry_info(s, Step::At(p), contno)],
                entries(s, q, contno, (left - 1) as nat),
            ),
            Step::Incomplete => Parsed::Incomplete,
            Step::Fail(_) => Parsed::Done { used: p, value: Seq::empty() },
        }
    }
}

/// Where the first line of a device list ends: `<contno>_LST3|<time>`.
pub open spec fn list_start(s: Seq<u8>) -> Step {
    line_end(s, rest_of_line(s, header(s, Step::At(0), "LST3"@)))
}

/// A device list: its first line and up to thirty entries. A list without
/// entries is a list.
pub open spec fn spec_lst3(s: Seq<u8>) -> Parsed<OWView> {
    match list_start(s) {
        Step::At(p) => match entries(s, p, contno_at(s, 0), MAX_ENTRIES as nat) {
            Parsed::Done { used, value } => Parsed::Done {
                used,
                value: OWView { contno: contno_at(s, 0), msg: MsgView::List3(value) },
            },
            Parsed::Incomplete => Parsed::Incomplete,
            Parsed::Error { offset } => Parsed::Error { offset },
        },
        Step::Incomplete => Parsed::Incomplete,
        Step::Fail(o) => Parsed::Error { offset: o },
    }
}

/// What every entry of the list of controller `contno` begins with.
fn head_text(contno: u8) -> (h: String)
    ensures
        h@ == entry_head(contno),
        vstd::utf8::is_ascii_chars(h@),
{
    let mut h = String::from_str("LST|");
    push_decimal(&mut h, contno as u64);
    h.append("_");
    proof {
        reveal_strlit("LST|");
        reveal_strlit("_");
        lemma_decimal_digits(contno as nat);
        let d = decimal(contno as nat);
        assert forall|k: int| 0 <= k < h@.len() implies (h@[k] as u32) < 128 by {
            if 4 <= k < 4 + d.len() {
                assert(crate::text::is_digit(d[k - 4]));
                assert(h@[k] == d[k - 4]);
            }
        }
    }
    h
}

/// Scans an optional name.
fn scan_name(i: &[u8], from: Scan) -> (r: Scan)
    requires
        from matches Scan::At(p) ==> p <= i@.len(),
    ensures
        r@ == optional_name(i@, from@),
        r matches Scan::At(e) ==> e <= i@.len() && from is At && from->At_0 <= e,
{
    match from {
        Scan::At(p) => if p >= i.len() {
            Scan::Incomplete
        } else if i[p] != 124 {
            Scan::At(p)
        } else {
            match scan_rest_of_line(i, Scan::At(p + 1)) {
                Scan::Fail(_) => Scan::At(p),
                other => other,
            }
        },
        other => other,
    }
}

/// Reads one entry of a device list.
fn read_entry(i: &[u8], p: usize, contno: u8, head: &str) -> (r: (Scan, Option<DeviceInfo>))
    requires
        p <= i@.len(),
        head@ == entry_head(contno),
        is_ascii(head),
    ensures
        r.0@ == entry(i@, Step::At(p as int), contno),
        r.0 matches Scan::At(e) ==> p < e <= i@.len() && r.1 is Some && r.1->Some_0@ == entry_info(
            i@,
            Step::At(p as int),
            contno,
        ),
{
    proof {
        reveal_strlit("|S_");
    }
    let from = Scan::At(p);
    let t = scan_tag(i, from, head);
    let busid = scan_run(i, t, Class::Alnum);
    let b1 = scan_byte(i, busid, 124);
    let serno = scan_run(i, b1, Class::Alnum);
    let t2 = scan_tag(i, serno, "|S_");
    let status = scan_run(i, t2, Class::Ident);
    let b2 = scan_byte(i, status, 124);
    let artno = scan_run(i, b2, Class::Alnum);
    let name = scan_name(i, artno);
    let e = scan_line_end(i, name);
    match (t, busid, b1, serno, t2, status, b2, artno, name, e) {
        (
            Scan::At(t),
            Scan::At(busid),
            Scan::At(b1),
            Scan::At(serno),
            Scan::At(t2),
            Scan::At(status),
            Scan::At(b2),
            Scan::At(artno),
            Scan::At(name),
            Scan::At(_),
        ) => {
            let word = run_text(i, t2, status, Class::Ident);
            match Status::from_text(word.as_str()) {
                Some(st) => {
                    let text = if name > artno {
                        Some(decode_lossy(slice_subrange(i, artno + 1, name)))
                    } else {
                        None
                    };
                    let label = match &text {
                        Some(t) => read_name(Some(t.as_str())),
                        None => read_name(None),
                    };
                    (
                        e,
                        Some(
                            DeviceInfo {
                                contno,
                                busid: run_text(i, t, busid, Class::Alnum),
                                serno: run_text(i, b1, serno, Class::Alnum),
                                status: st,
                                artno: run_text(i, b2, artno, Class::Alnum),
                                name: label,
                            },
                        ),
                    )
                },
                None => (Scan::Fail(p), None),
            }
        },
        _ => (e, None),
    }
}

/// Reads a device list.
pub fn lst3(i: &[u8]) -> (r: PResult)
    ensures
        r@ == spec_lst3(i@),
{
    proof {
        reveal_strlit("LST3");
    }
    let (h, contno) = scan_header(i, Scan::At(0), "LST3");
    let t = scan_rest_of_line(i, h);
    let l = scan_line_end(i, t);
    let start = match l {
        Scan::At(p) => p,
        _ => {
            return unfinished(l);
        },
    };
    let head = head_text(contno);
    let mut items: Vec<DeviceInfo> = Vec::new();
    let mut p: usize = start;
    let mut n: usize = 0;
    let ghost whole = entries(i@, start as int, contno, MAX_ENTRIES as nat);
    assert(prepend(items.deep_view(), whole) == whole) by {
        assert(items.deep_view() =~= Seq::<DeviceInfoView>::empty());
        match whole {
            Parsed::Done { used, value } => {
                assert(Seq::<DeviceInfoView>::empty() + value =~= value);
            },
            _ => {},
        }
    }
    while n < MAX_ENTRIES
        invariant
            n <= MAX_ENTRIES,
            p <= i@.len(),
            head@ == entry_head(contno),
            vstd::utf8::is_ascii_chars(head@),
            contno == contno_at(i@, 0),
            list_start(i@) == Step::At(start as int),
            whole == entries(i@, start as int, contno, MAX_ENTRIES as nat),
            whole == prepend(
                items.deep_view(),
                entries(i@, p as int, contno, (MAX_ENTRIES - n) as nat),
            ),
        decreases MAX_ENTRIES - n,
    {
        let ghost rest = entries(i@, p as int, contno, (MAX_ENTRIES - n) as nat);
        let (e, info) = read_entry(i, p, contno, head.as_str());
        match (e, info) {
            (Scan::At(q), Some(info)) => {
                let ghost before = items.deep_view();
                let ghost next = entries(i@, q as int, contno, (MAX_ENTRIES - n - 1) as nat);
                assert(rest == prepend(seq![info@], next));
                items.push(info);
                assert(items.deep_view() =~= before.push(info@));
                assert(prepend(before, rest) == prepend(items.deep_view(), next)) by {
                    match next {
                        Parsed::Done { used, value } => {
                            assert(before + (seq![info@] + value) =~= before.push(info@) + value);
                        },
                        _ => {},
                    }
                }
                p = q;
                n += 1;
            },
            (Scan::Incomplete, _) => {
                return PResult::Incomplete;
            },
            _ => {
                assert(rest == Parsed::Done { used: p as int, value: Seq::<DeviceInfoView>::empty() });
                assert(items.deep_view() + Seq::<DeviceInfoView>::empty() =~= items.deep_view());
                return PResult::Done { consumed: p, msg: OW { contno, msg: Msg::List3(items) } };
            },
        }
    }
    assert(items.deep_view() + Seq::<DeviceInfoView>::empty() =~= items.deep_view());
    PResult::Done { consumed: p, msg: OW { contno, msg: Msg::List3(items) } }
}


/// A list of entries ends where it began or behind the line feed of its last
/// entry.
proof fn lemma_entries_lines(s: Seq<u8>, p: int, contno: u8, left: nat)
    requires
        0 < p <= s.len(),
        s[p - 1] == 10,
    ensures
        entries(s, p, contno, left) matches Parsed::Done { used, .. } ==> 0 < used <= s.len()
            && s[used - 1] == 10,
    decreases left,
{
    if left > 0 {
        match entry(s, Step::At(p), contno) {
            Step::At(q) => {
                super::scan::lemma_steps(s);
                assert(super::scan::within(s, Step::At(p)));
                assert(super::scan::within(s, entry_artno(s, Step::At(p), contno)));
                assert(super::scan::within(s, entry_name(s, Step::At(p), contno)));
                lemma_entries_lines(s, q, contno, (left - 1) as nat);
            },
            _ => {},
        }
    }
}

/// A device list that was read ends with a line.
pub proof fn lemma_list_lines(s: Seq<u8>)
    ensures
        whole_lines(s, spec_lst3(s)),
{
    match list_start(s) {
        Step::At(p) => {
            super::scan::lemma_steps(s);
            assert(super::scan::within(s, Step::At(0)));
            lemma_entries_lines(s, p, contno_at(s, 0), MAX_ENTRIES as nat);
        },
        _ => {},
    }
}


/// More input changes no entry that did not ask for more.
proof fn lemma_entry_stays(s: Seq<u8>, t: Seq<u8>, p: int, contno: u8)
    requires
        extends(t, s),
        0 <= p <= s.len(),
    ensures
        stays(entry(s, Step::At(p), contno), entry(t, Step::At(p), contno)),
        entry(s, Step::At(p), contno) is At ==> entry_info(t, Step::At(p), contno) == entry_info(
            s,
            Step::At(p),
            contno,
        ) && p < entry(s, Step::At(p), contno).at() <= s.len(),
{
    lemma_steps(s);
    lemma_steps_stay(s, t);
    let from = Step::At(p);
    assert(within(s, from));
    let t1 = tag(s, from, entry_head(contno));
    assert(stays(t1, tag(t, from, entry_head(contno))));
    assert(within(s, t1));
    let busid = entry_busid(s, from, contno);
    assert(stays(busid, entry_busid(t, from, contno)));
    assert(within(s, busid));
    let b1 = byte(s, busid, 124);
    assert(stays(b1, byte(t, busid, 124)));
    assert(within(s, b1));
    let serno = entry_serno(s, from, contno);
    assert(stays(serno, entry_serno(t, from, contno)));
    assert(within(s, serno));
    let t2 = tag(s, serno, "|S_"@);
    assert(stays(t2, tag(t, serno, "|S_"@)));
    assert(within(s, t2));
    let status = entry_status(s, from, contno);
    assert(stays(status, entry_status(t, from, contno)));
    assert(within(s, status));
    let b2 = byte(s, status, 124);
    assert(stays(b2, byte(t, status, 124)));
    assert(within(s, b2));
    let artno = entry_artno(s, from, contno);
    assert(stays(artno, entry_artno(t, from, contno)));
    assert(within(s, artno));
    let name = entry_name(s, from, contno);
    assert(stays(name, entry_name(t, from, contno)) && within(s, name)) by {
        if artno is At && artno.at() < s.len() && s[artno.at()] == 124 {
            let r = rest_of_line(s, Step::At(artno.at() + 1));
            assert(within(s, Step::At(artno.at() + 1)));
            assert(stays(r, rest_of_line(t, Step::At(artno.at() + 1))));
            assert(within(s, r));
        }
    }
    assert(stays(line_end(s, name), line_end(t, name)));
    if line_end(s, name) is At {
        assert(t.subrange(t1.at(), busid.at()) == s.subrange(t1.at(), busid.at()));
        assert(t.subrange(b1.at(), serno.at()) == s.subrange(b1.at(), serno.at()));
        assert(t.subrange(t2.at(), status.at()) == s.subrange(t2.at(), status.at()));
        assert(t.subrange(b2.at(), artno.at()) == s.subrange(b2.at(), artno.at()));
        if name.at() > artno.at() {
            assert(t.subrange(artno.at() + 1, name.at()) == s.subrange(artno.at() + 1, name.at()));
        }
    }
}

/// More input changes no list of entries that did not ask for more.
proof fn lemma_entries_stay(s: Seq<u8>, t: Seq<u8>, p: int, contno: u8, left: nat)
    requires
        extends(t, s),
        0 <= p <= s.len(),
    ensures
        keeps(entries(s, p, contno, left), entries(t, p, contno, left)),
    decreases left,
{
    if left > 0 {
        lemma_entry_stays(s, t, p, contno);
        match entry(s, Step::At(p), contno) {
            Step::At(q) => {
                lemma_entries_stay(s, t, q, contno, (left - 1) as nat);
            },
            _ => {},
        }
    }
}

/// More input changes no device list that did not ask for more.
pub proof fn lemma_list_stays(s: Seq<u8>, t: Seq<u8>)
    requires
        extends(t, s),
    ensures
        keeps(spec_lst3(s), spec_lst3(t)),
{
    lemma_steps(s);
    lemma_steps_stay(s, t);
    lemma_heads_stay(s, t);
    assert(within(s, Step::At(0)));
    let h = header(s, Step::At(0), "LST3"@);
    assert(stays(h, header(t, Step::At(0), "LST3"@)));
    assert(within(s, h));
    let r = rest_of_line(s, h);
    assert(stays(r, rest_of_line(t, h)));
    assert(within(s, r));
    assert(stays(list_start(s), list_start(t)));
    match list_start(s) {
        Step::At(p) => {
            assert(run(s, Step::At(0), Class::Digit) is At);
            lemma_entries_stay(s, t, p, contno_at(s, 0), MAX_ENTRIES as nat);
        },
        _ => {},
    }
}

} // verus!
