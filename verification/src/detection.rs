//! Device detection: hardware events and the vendor:product IDs they carry.

use vstd::prelude::*;
use crate::hex::{hex_lower, is_hex_char, lower_hex};
use crate::text::{chars_eq, chars_of, lines, lines_of, split_chars, split_pieces, string_of, text};

verus! {

/// A device event.
#[derive(Debug, Clone)]
pub struct UdevEvent {
    /// Event action (add, remove, change).
    pub action: String,
    /// Device subsystem (usb, pci, input, etc.).
    pub subsystem: String,
    /// USB vendor ID (4 hex chars).
    pub vendor_id: String,
    /// USB product ID (4 hex chars).
    pub product_id: String,
    /// Device sysfs path.
    pub sysfs_path: Option<String>,
    /// Device name.
    pub devname: Option<String>,
}

/// A lower-case hexadecimal digit.
pub open spec fn is_lower_hex_char(c: char) -> bool {
    ('0' <= c && c <= '9') || ('a' <= c && c <= 'f')
}

/// A USB ID field: four hexadecimal digits, a colon, four hexadecimal
/// digits.
pub open spec fn is_usb_id(f: Seq<char>) -> bool {
    &&& f.len() == 9
    &&& f[4] == ':'
    &&& forall|j: int| 0 <= j < 9 && j != 4 ==> is_hex_char(#[trigger] f[j])
}

/// The index of the first field, from `k` on, that reads "ID".
pub open spec fn id_label_from(parts: Seq<Seq<char>>, k: int) -> Option<int>
    decreases parts.len() - k,
{
    if k < 0 || k >= parts.len() {
        None
    } else if parts[k] == "ID"@ {
        Some(k)
    } else {
        id_label_from(parts, k + 1)
    }
}

/// The vendor and product fields that one line of `lsusb` output yields,
/// as in "Bus 001 Device 002: ID 8087:0a2a Intel Corp.": the
/// space-separated field after the first "ID" field, when it is a USB ID.
pub open spec fn lsusb_line_ids(line: Seq<char>) -> Option<(Seq<char>, Seq<char>)> {
    let parts = split_pieces(line, ' ');
    match id_label_from(parts, 0) {
        Some(k) => if k + 1 < parts.len() && is_usb_id(parts[k + 1]) {
            Some((parts[k + 1].take(4), parts[k + 1].skip(5)))
        } else {
            None
        },
        None => None,
    }
}

/// Four lower-case hexadecimal digits.
pub open spec fn is_lower_hex_id(s: Seq<char>) -> bool {
    s.len() == 4 && forall|j: int| 0 <= j < 4 ==> is_lower_hex_char(#[trigger] s[j])
}

/// The vendor and product fields of all the lines that yield them, in order.
pub open spec fn lsusb_ids(lines: Seq<Seq<char>>) -> Seq<(Seq<char>, Seq<char>)>
    decreases lines.len(),
{
    if lines.len() == 0 {
        Seq::empty()
    } else {
        let rest = lsusb_ids(lines.drop_last());
        match lsusb_line_ids(lines.last()) {
            Some(p) => rest.push(p),
            None => rest,
        }
    }
}

/// The event reported for a device listed by `lsusb` with the given IDs.
pub open spec fn lsusb_event_is(e: UdevEvent, ids: (Seq<char>, Seq<char>)) -> bool {
    &&& e.action@ == "add"@
    &&& e.subsystem@ == "usb"@
    &&& e.vendor_id@ == lower_hex(ids.0)
    &&& e.product_id@ == lower_hex(ids.1)
    &&& e.sysfs_path is None
    &&& e.devname is None
}

fn hex_lower_exec(c: char) -> (r: char)
    ensures
        r == hex_lower(c),
{
    if c == 'A' { 'a' }
    else if c == 'B' { 'b' }
    else if c == 'C' { 'c' }
    else if c == 'D' { 'd' }
    else if c == 'E' { 'e' }
    else if c == 'F' { 'f' }
    else { c }
}

fn is_hex_char_exec(c: char) -> (r: bool)
    ensures
        r == is_hex_char(c),
{
    ('0' <= c && c <= '9') || ('a' <= c && c <= 'f') || ('A' <= c && c <= 'F')
}

fn is_usb_id_exec(f: &[char]) -> (r: bool)
    ensures
        r == is_usb_id(f@),
{
    if f.len() != 9 || f[4] != ':' {
        return false;
    }
    let mut j: usize = 0;
    while j < 9
        invariant
            f@.len() == 9,
            0 <= j <= 9,
            forall|k: int| 0 <= k < j && k != 4 ==> is_hex_char(#[trigger] f@[k]),
        decreases 9 - j,
    {
        if j != 4 && !is_hex_char_exec(f[j]) {
            return false;
        }
        j = j + 1;
    }
    true
}

/// The chars `from..to` of `f`, lower-cased as hexadecimal digits.
fn lower_hex_range(f: &[char], from: usize, to: usize) -> (r: Vec<char>)
    requires
        from <= to <= f@.len(),
    ensures
        r@ == lower_hex(f@.subrange(from as int, to as int)),
{
    let mut out: Vec<char> = Vec::new();
    let mut i: usize = from;
    while i < to
        invariant
            from <= i <= to <= f@.len(),
            out@ == lower_hex(f@.subrange(from as int, i as int)),
        decreases to - i,
    {
        let c = hex_lower_exec(f[i]);
        out.push(c);
        i = i + 1;
        assert(out@ =~= lower_hex(f@.subrange(from as int, i as int)));
    }
    out
}

/// The IDs of a line, lower-cased.
fn line_ids(line: &[char]) -> (r: Option<(Vec<char>, Vec<char>)>)
    ensures
        match lsusb_line_ids(line@) {
            Some(p) => r matches Some(q) && q.0@ == lower_hex(p.0) && q.1@ == lower_hex(p.1),
            None => r is None,
        },
{
    let parts = split_chars(line, ' ');
    let ghost ps = split_pieces(line@, ' ');
    let label = text("ID");
    let mut k: usize = 0;
    while k < parts.len()
        invariant
            0 <= k <= parts@.len(),
            parts@.len() == ps.len(),
            forall|i: int| 0 <= i < parts@.len() ==> #[trigger] parts@[i]@ == ps[i],
            label@ == "ID"@,
            id_label_from(ps, 0) == id_label_from(ps, k as int),
        ensures
            k <= parts@.len(),
            id_label_from(ps, 0) == id_label_from(ps, k as int),
            k < parts@.len() ==> ps[k as int] == "ID"@,
        decreases parts@.len() - k,
    {
        if chars_eq(&parts[k], &label) {
            break;
        }
        k = k + 1;
    }
    if k >= parts.len() {
        return None;
    }
    assert(id_label_from(ps, 0) == Some(k as int));
    if k + 1 >= parts.len() {
        return None;
    }
    let field = &parts[k + 1];
    if !is_usb_id_exec(field) {
        return None;
    }
    let vendor = lower_hex_range(field, 0, 4);
    let product = lower_hex_range(field, 5, 9);
    assert(field@.subrange(0, 4) =~= field@.take(4));
    assert(field@.subrange(5, 9) =~= field@.skip(5));
    Some((vendor, product))
}

/// The IDs of every line that yields them are USB IDs' halves.
proof fn lemma_lsusb_ids_hex(lines: Seq<Seq<char>>)
    ensures
        forall|k: int| 0 <= k < lsusb_ids(lines).len() ==> is_hex_pair(#[trigger] lsusb_ids(lines)[k]),
    decreases lines.len(),
{
    if lines.len() > 0 {
        lemma_lsusb_ids_hex(lines.drop_last());
        let rest = lsusb_ids(lines.drop_last());
        let ids = lsusb_ids(lines);
        match lsusb_line_ids(lines.last()) {
            Some(p) => {
                let parts = split_pieces(lines.last(), ' ');
                let k = id_label_from(parts, 0)->0;
                let f = parts[k + 1];
                assert(is_usb_id(f));
                assert forall|j: int| 0 <= j < 4 implies is_hex_char(#[trigger] p.0[j]) by {
                    assert(p.0[j] == f[j]);
                }
                assert forall|j: int| 0 <= j < 4 implies is_hex_char(#[trigger] p.1[j]) by {
                    assert(p.1[j] == f[j + 5]);
                }
                assert(is_hex_pair(p));
                assert forall|i: int| 0 <= i < ids.len() implies is_hex_pair(#[trigger] ids[i]) by {
                    if i < rest.len() {
                        assert(ids[i] == rest[i]);
                    }
                }
            },
            None => {},
        }
    }
}

/// Both halves of an ID pair are four hexadecimal digits.
pub open spec fn is_hex_pair(p: (Seq<char>, Seq<char>)) -> bool {
    &&& p.0.len() == 4
    &&& p.1.len() == 4
    &&& forall|j: int| 0 <= j < 4 ==> is_hex_char(#[trigger] p.0[j])
    &&& forall|j: int| 0 <= j < 4 ==> is_hex_char(#[trigger] p.1[j])
}

/// A hexadecimal digit lower-cased is a lower-case hexadecimal digit.
proof fn lemma_lower_hex_id(s: Seq<char>)
    requires
        s.len() == 4,
        forall|j: int| 0 <= j < 4 ==> is_hex_char(#[trigger] s[j]),
    ensures
        is_lower_hex_id(lower_hex(s)),
{
    assert forall|j: int| 0 <= j < 4 implies is_lower_hex_char(#[trigger] lower_hex(s)[j]) by {
        assert(is_hex_char(s[j]));
    }
}

/// Parses `lsusb` output into one "add" event per line that lists a USB
/// ID (four hexadecimal digits, a colon, four hexadecimal digits) after its
/// "ID" field; the IDs are lower-cased.
pub fn parse_lsusb_output(output: &str) -> (r: Vec<UdevEvent>)
    ensures
        r@.len() == lsusb_ids(lines_of(output@)).len(),
        forall|i: int| 0 <= i < r@.len() ==> lsusb_event_is(#[trigger] r@[i], lsusb_ids(lines_of(output@))[i]),
        forall|i: int| 0 <= i < r@.len() ==> is_lower_hex_id((#[trigger] r@[i]).vendor_id@)
            && is_lower_hex_id(r@[i].product_id@),
{
    let text = chars_of(output);
    let ls = lines(&text);
    let ghost all = lines_of(output@);
    let mut events: Vec<UdevEvent> = Vec::new();
    let mut i: usize = 0;
    while i < ls.len()
        invariant
            0 <= i <= ls@.len(),
            all == lines_of(output@),
            ls@.len() == all.len(),
            forall|k: int| 0 <= k < ls@.len() ==> #[trigger] ls@[k]@ == all[k],
            events@.len() == lsusb_ids(all.take(i as int)).len(),
            forall|k: int| 0 <= k < events@.len() ==> lsusb_event_is(#[trigger] events@[k], lsusb_ids(all.take(i as int))[k]),
            forall|k: int| 0 <= k < events@.len() ==> is_lower_hex_id((#[trigger] events@[k]).vendor_id@)
                && is_lower_hex_id(events@[k].product_id@),
        decreases ls@.len() - i,
    {
        proof {
            assert(all.take(i + 1).drop_last() =~= all.take(i as int));
            assert(all.take(i + 1).last() == all[i as int]);
            lemma_lsusb_ids_hex(all.take(i + 1));
        }
        match line_ids(&ls[i]) {
            Some((vendor, product)) => {
                proof {
                    let n = lsusb_ids(all.take(i as int)).len();
                    let p = lsusb_ids(all.take(i + 1))[n as int];
                    lemma_lower_hex_id(p.0);
                    lemma_lower_hex_id(p.1);
                }
                events.push(UdevEvent {
                    action: String::from_str("add"),
                    subsystem: String::from_str("usb"),
                    vendor_id: string_of(&vendor),
                    product_id: string_of(&product),
                    sysfs_path: None,
                    devname: None,
                });
            },
            None => {},
        }
        i = i + 1;
    }
    assert(all.take(ls@.len() as int) =~= all);
    events
}

/// The event for a device, given what the device database reports of it:
/// none without an action or a subsystem; missing IDs read "0000".
pub fn event_from_device(
    action: Option<String>,
    subsystem: Option<String>,
    vendor_id: Option<String>,
    model_id: Option<String>,
    sysfs_name: Option<String>,
    devname: Option<String>,
) -> (r: Option<UdevEvent>)
    ensures
        r is Some <==> (action is Some && subsystem is Some),
        r matches Some(e) ==> {
            &&& e.action == action->0
            &&& e.subsystem == subsystem->0
            &&& e.vendor_id@ == match vendor_id { Some(v) => v@, None => "0000"@ }
            &&& e.product_id@ == match model_id { Some(v) => v@, None => "0000"@ }
            &&& e.sysfs_path == sysfs_name
            &&& e.devname == devname
        },
{
    let action = match action {
        Some(a) => a,
        None => return None,
    };
    let subsystem = match subsystem {
        Some(s) => s,
        None => return None,
    };
    let vendor_id = match vendor_id {
        Some(v) => v,
        None => String::from_str("0000"),
    };
    let product_id = match model_id {
        Some(v) => v,
        None => String::from_str("0000"),
    };
    Some(UdevEvent { action, subsystem, vendor_id, product_id, sysfs_path: sysfs_name, devname })
}

} // verus!
