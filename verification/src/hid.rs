//! Decoding of the G13's input reports into key presses.
use vstd::prelude::*;

verus! {

/// A control of the G13 that the tools report: the display keys, the M keys,
/// the extra keys, the stick click, the G keys and the four stick directions.
#[derive(Clone, Copy, Debug, PartialEq, Eq, Structural)]
pub enum G13Key {
    Top1,
    Top2,
    Top3,
    Top4,
    M1,
    M2,
    M3,
    Mr,
    Extra1,
    Extra2,
    StickClick,
    G1,
    G2,
    G3,
    G4,
    G5,
    G6,
    G7,
    G8,
    G9,
    G10,
    G11,
    G12,
    G13,
    G14,
    G15,
    G16,
    G17,
    G18,
    G19,
    G20,
    G21,
    G22,
    StickUp,
    StickDown,
    StickLeft,
    StickRight,
}

/// Where a button lives in an input report: the byte's index and the bit mask.
/// The stick directions are not bits of the report and have none.
pub open spec fn spec_report_bit(k: G13Key) -> Option<(int, u8)> {
    match k {
        G13Key::Top1 => Some((6int, 0x02u8)),
        G13Key::Top2 => Some((6int, 0x04u8)),
        G13Key::Top3 => Some((6int, 0x08u8)),
        G13Key::Top4 => Some((6int, 0x10u8)),
        G13Key::M1 => Some((6int, 0x20u8)),
        G13Key::M2 => Some((6int, 0x40u8)),
        G13Key::M3 => Some((6int, 0x80u8)),
        G13Key::Mr => Some((7int, 0x01u8)),
        G13Key::Extra1 => Some((7int, 0x02u8)),
        G13Key::Extra2 => Some((7int, 0x04u8)),
        G13Key::StickClick => Some((7int, 0x08u8)),
        G13Key::G1 => Some((3int, 0x01u8)),
        G13Key::G2 => Some((3int, 0x02u8)),
        G13Key::G3 => Some((3int, 0x04u8)),
        G13Key::G4 => Some((3int, 0x08u8)),
        G13Key::G5 => Some((3int, 0x10u8)),
        G13Key::G6 => Some((3int, 0x20u8)),
        G13Key::G7 => Some((3int, 0x40u8)),
        G13Key::G8 => Some((3int, 0x80u8)),
        G13Key::G9 => Some((4int, 0x01u8)),
        G13Key::G10 => Some((4int, 0x02u8)),
        G13Key::G11 => Some((4int, 0x04u8)),
        G13Key::G12 => Some((4int, 0x08u8)),
        G13Key::G13 => Some((4int, 0x10u8)),
        G13Key::G14 => Some((4int, 0x20u8)),
        G13Key::G15 => Some((4int, 0x40u8)),
        G13Key::G16 => Some((4int, 0x80u8)),
        G13Key::G17 => Some((5int, 0x01u8)),
        G13Key::G18 => Some((5int, 0x02u8)),
        G13Key::G19 => Some((5int, 0x04u8)),
        G13Key::G20 => Some((5int, 0x08u8)),
        G13Key::G21 => Some((5int, 0x10u8)),
        G13Key::G22 => Some((5int, 0x20u8)),
        _ => None,
    }
}

/// The name under which the tools report and bind a control.
pub open spec fn spec_key_name(k: G13Key) -> Seq<char> {
    match k {
        G13Key::Top1 => "TOP1"@,
        G13Key::Top2 => "TOP2"@,
        G13Key::Top3 => "TOP3"@,
        G13Key::Top4 => "TOP4"@,
        G13Key::M1 => "M1"@,
        G13Key::M2 => "M2"@,
        G13Key::M3 => "M3"@,
        G13Key::Mr => "MR"@,
        G13Key::Extra1 => "EXTRA1"@,
        G13Key::Extra2 => "EXTRA2"@,
        G13Key::StickClick => "STICK_CLICK"@,
        G13Key::G1 => "G1"@,
        G13Key::G2 => "G2"@,
        G13Key::G3 => "G3"@,
        G13Key::G4 => "G4"@,
        G13Key::G5 => "G5"@,
        G13Key::G6 => "G6"@,
        G13Key::G7 => "G7"@,
        G13Key::G8 => "G8"@,
        G13Key::G9 => "G9"@,
        G13Key::G10 => "G10"@,
        G13Key::G11 => "G11"@,
        G13Key::G12 => "G12"@,
        G13Key::G13 => "G13"@,
        G13Key::G14 => "G14"@,
        G13Key::G15 => "G15"@,
        G13Key::G16 => "G16"@,
        G13Key::G17 => "G17"@,
        G13Key::G18 => "G18"@,
        G13Key::G19 => "G19"@,
        G13Key::G20 => "G20"@,
        G13Key::G21 => "G21"@,
        G13Key::G22 => "G22"@,
        G13Key::StickUp => "STICK_UP"@,
        G13Key::StickDown => "STICK_DOWN"@,
        G13Key::StickLeft => "STICK_LEFT"@,
        G13Key::StickRight => "STICK_RIGHT"@,
    }
}

/// Whether a control is held in a report: its bit is set, or, for a stick
/// direction, the stick's coordinate lies beyond the direction's threshold
/// (vertical below 50 is up, above 200 down; horizontal below 50 is left,
/// above 200 right). Byte 1 of a report is the horizontal coordinate, byte 2 the vertical.
pub open spec fn is_down(k: G13Key, report: Seq<u8>) -> bool {
    match spec_report_bit(k) {
        Some((byte, mask)) => report[byte] & mask != 0,
        None => match k {
            G13Key::StickUp => report[2] < 50,
            G13Key::StickDown => report[2] > 200,
            G13Key::StickLeft => report[1] < 50,
            _ => report[1] > 200,
        },
    }
}

/// Whether a control went from released in `prev` to held in `now`.
pub open spec fn newly_pressed(k: G13Key, now: Seq<u8>, prev: Seq<u8>) -> bool {
    is_down(k, now) && !is_down(k, prev)
}

/// Every control, in the order in which a report is scanned: the buttons in
/// report order, then up, down, left and right of the stick.
pub open spec fn spec_scan_order() -> Seq<G13Key> {
    seq![
        G13Key::Top1,
        G13Key::Top2,
        G13Key::Top3,
        G13Key::Top4,
        G13Key::M1,
        G13Key::M2,
        G13Key::M3,
        G13Key::Mr,
        G13Key::Extra1,
        G13Key::Extra2,
        G13Key::StickClick,
        G13Key::G1,
        G13Key::G2,
        G13Key::G3,
        G13Key::G4,
        G13Key::G5,
        G13Key::G6,
        G13Key::G7,
        G13Key::G8,
        G13Key::G9,
        G13Key::G10,
        G13Key::G11,
        G13Key::G12,
        G13Key::G13,
        G13Key::G14,
        G13Key::G15,
        G13Key::G16,
        G13Key::G17,
        G13Key::G18,
        G13Key::G19,
        G13Key::G20,
        G13Key::G21,
        G13Key::G22,
        G13Key::StickUp,
        G13Key::StickDown,
        G13Key::StickLeft,
        G13Key::StickRight,
    ]
}

/// The controls of `keys` that went from released to held, in the order of `keys`.
pub open spec fn presses_among(keys: Seq<G13Key>, now: Seq<u8>, prev: Seq<u8>) -> Seq<G13Key>
    decreases keys.len(),
{
    if keys.len() == 0 {
        Seq::empty()
    } else {
        let rest = presses_among(keys.drop_last(), now, prev);
        if newly_pressed(keys.last(), now, prev) {
            rest.push(keys.last())
        } else {
            rest
        }
    }
}

/// The presses that a report `now` brings after the report `prev`, in scan order.
pub open spec fn report_presses(now: Seq<u8>, prev: Seq<u8>) -> Seq<G13Key> {
    presses_among(spec_scan_order(), now, prev)
}

impl G13Key {
    /// The name under which the tools report and bind this control.
    pub fn name(&self) -> (s: String)
        ensures
            s@ == spec_key_name(*self),
    {
        match self {
            G13Key::Top1 => String::from_str("TOP1"),
            G13Key::Top2 => String::from_str("TOP2"),
            G13Key::Top3 => String::from_str("TOP3"),
            G13Key::Top4 => String::from_str("TOP4"),
            G13Key::M1 => String::from_str("M1"),
            G13Key::M2 => String::from_str("M2"),
            G13Key::M3 => String::from_str("M3"),
            G13Key::Mr => String::from_str("MR"),
            G13Key::Extra1 => String::from_str("EXTRA1"),
            G13Key::Extra2 => String::from_str("EXTRA2"),
            G13Key::StickClick => String::from_str("STICK_CLICK"),
            G13Key::G1 => String::from_str("G1"),
            G13Key::G2 => String::from_str("G2"),
            G13Key::G3 => String::from_str("G3"),
            G13Key::G4 => String::from_str("G4"),
            G13Key::G5 => String::from_str("G5"),
            G13Key::G6 => String::from_str("G6"),
            G13Key::G7 => String::from_str("G7"),
            G13Key::G8 => String::from_str("G8"),
            G13Key::G9 => String::from_str("G9"),
            G13Key::G10 => String::from_str("G10"),
            G13Key::G11 => String::from_str("G11"),
            G13Key::G12 => String::from_str("G12"),
            G13Key::G13 => String::from_str("G13"),
            G13Key::G14 => String::from_str("G14"),
            G13Key::G15 => String::from_str("G15"),
            G13Key::G16 => String::from_str("G16"),
            G13Key::G17 => String::from_str("G17"),
            G13Key::G18 => String::from_str("G18"),
            G13Key::G19 => String::from_str("G19"),
            G13Key::G20 => String::from_str("G20"),
            G13Key::G21 => String::from_str("G21"),
            G13Key::G22 => String::from_str("G22"),
            G13Key::StickUp => String::from_str("STICK_UP"),
            G13Key::StickDown => String::from_str("STICK_DOWN"),
            G13Key::StickLeft => String::from_str("STICK_LEFT"),
            G13Key::StickRight => String::from_str("STICK_RIGHT"),
        }
    }

    /// Where this button lives in an input report; `None` for a stick direction.
    pub fn report_bit(&self) -> (r: Option<(usize, u8)>)
        ensures
            match spec_report_bit(*self) {
                Some((byte, mask)) => r == Some((byte as usize, mask)),
                None => r is None,
            },
    {
        match self {
            G13Key::Top1 => Some((6, 0x02)),
            G13Key::Top2 => Some((6, 0x04)),
            G13Key::Top3 => Some((6, 0x08)),
            G13Key::Top4 => Some((6, 0x10)),
            G13Key::M1 => Some((6, 0x20)),
            G13Key::M2 => Some((6, 0x40)),
            G13Key::M3 => Some((6, 0x80)),
            G13Key::Mr => Some((7, 0x01)),
            G13Key::Extra1 => Some((7, 0x02)),
            G13Key::Extra2 => Some((7, 0x04)),
            G13Key::StickClick => Some((7, 0x08)),
            G13Key::G1 => Some((3, 0x01)),
            G13Key::G2 => Some((3, 0x02)),
            G13Key::G3 => Some((3, 0x04)),
            G13Key::G4 => Some((3, 0x08)),
            G13Key::G5 => Some((3, 0x10)),
            G13Key::G6 => Some((3, 0x20)),
            G13Key::G7 => Some((3, 0x40)),
            G13Key::G8 => Some((3, 0x80)),
            G13Key::G9 => Some((4, 0x01)),
            G13Key::G10 => Some((4, 0x02)),
            G13Key::G11 => Some((4, 0x04)),
            G13Key::G12 => Some((4, 0x08)),
            G13Key::G13 => Some((4, 0x10)),
            G13Key::G14 => Some((4, 0x20)),
            G13Key::G15 => Some((4, 0x40)),
            G13Key::G16 => Some((4, 0x80)),
            G13Key::G17 => Some((5, 0x01)),
            G13Key::G18 => Some((5, 0x02)),
            G13Key::G19 => Some((5, 0x04)),
            G13Key::G20 => Some((5, 0x08)),
            G13Key::G21 => Some((5, 0x10)),
            G13Key::G22 => Some((5, 0x20)),
            _ => None,
        }
    }

    /// Whether this control is held in `report`.
    pub fn is_down(&self, report: &[u8]) -> (b: bool)
        requires
            report.len() >= 8,
        ensures
            b == is_down(*self, report@),
    {
        match self.report_bit() {
            Some((byte, mask)) => report[byte] & mask != 0,
            None => match self {
                G13Key::StickUp => report[2] < 50,
                G13Key::StickDown => report[2] > 200,
                G13Key::StickLeft => report[1] < 50,
                _ => report[1] > 200,
            },
        }
    }
}

/// Every control, in the order in which a report is scanned.
pub fn scan_order() -> (keys: Vec<G13Key>)
    ensures
        keys@ == spec_scan_order(),
{
    let keys = vec![
        G13Key::Top1,
        G13Key::Top2,
        G13Key::Top3,
        G13Key::Top4,
        G13Key::M1,
        G13Key::M2,
        G13Key::M3,
        G13Key::Mr,
        G13Key::Extra1,
        G13Key::Extra2,
        G13Key::StickClick,
        G13Key::G1,
        G13Key::G2,
        G13Key::G3,
        G13Key::G4,
        G13Key::G5,
        G13Key::G6,
        G13Key::G7,
        G13Key::G8,
        G13Key::G9,
        G13Key::G10,
        G13Key::G11,
        G13Key::G12,
        G13Key::G13,
        G13Key::G14,
        G13Key::G15,
        G13Key::G16,
        G13Key::G17,
        G13Key::G18,
        G13Key::G19,
        G13Key::G20,
        G13Key::G21,
        G13Key::G22,
        G13Key::StickUp,
        G13Key::StickDown,
        G13Key::StickLeft,
        G13Key::StickRight,
    ];
    assert(keys@ =~= spec_scan_order());
    keys
}

/// The presses that a report `now` brings after the report `prev`, in scan order.
pub fn presses(now: &[u8], prev: &[u8]) -> (events: Vec<G13Key>)
    requires
        now.len() >= 8,
        prev.len() >= 8,
    ensures
        events@ == report_presses(now@, prev@),
{
    let keys = scan_order();
    let mut events: Vec<G13Key> = Vec::new();
    let mut i: usize = 0;
    while i < keys.len()
        invariant
            now.len() >= 8,
            prev.len() >= 8,
            keys@ == spec_scan_order(),
            i <= keys.len(),
            events@ == presses_among(keys@.take(i as int), now@, prev@),
        decreases keys.len() - i,
    {
        let k = keys[i];
        assert(keys@.take(i + 1).drop_last() =~= keys@.take(i as int));
        if k.is_down(now) && !k.is_down(prev) {
            events.push(k);
        }
        i = i + 1;
    }
    assert(keys@.take(keys.len() as int) =~= keys@);
    events
}

/// What the reading loop remembers between reports: the first eight bytes of
/// the last full report (all released before the first one).
pub struct ReportTracker {
    pub prev: [u8; 8],
}

impl ReportTracker {
    /// A tracker that has seen no report yet: every control counts as released.
    pub fn new() -> (t: Self)
        ensures
            t.prev@ == Seq::new(8, |i: int| 0u8),
    {
        let t = ReportTracker { prev: [0u8; 8] };
        assert(t.prev@ =~= Seq::new(8, |i: int| 0u8));
        t
    }

    /// Takes the first `len` bytes of `buf` as a report from the device.
    ///
    /// A report of fewer than eight bytes is ignored: no presses, nothing
    /// remembered. Otherwise the result is the presses that it brings after the
    /// remembered report, in scan order, and its first eight bytes are remembered.
    pub fn process(&mut self, buf: &[u8], len: usize) -> (events: Vec<G13Key>)
        requires
            len <= buf.len(),
        ensures
            len >= 8 ==> events@ == report_presses(buf@, old(self).prev@),
            len >= 8 ==> final(self).prev@ == buf@.take(8),
            len < 8 ==> events@.len() == 0,
            len < 8 ==> final(self).prev == old(self).prev,
    {
        if len < 8 {
            return Vec::new();
        }
        let events = presses(buf, &self.prev);
        let mut j: usize = 0;
        while j < 8
            invariant
                buf.len() >= 8,
                j <= 8,
                forall|k: int| 0 <= k < j ==> self.prev@[k] == buf@[k],
            decreases 8 - j,
        {
            self.prev[j] = buf[j];
            j = j + 1;
        }
        assert(self.prev@ =~= buf@.take(8));
        events
    }
}

proof fn lemma_no_presses_against_itself(keys: Seq<G13Key>, now: Seq<u8>, prev: Seq<u8>)
    requires
        now.len() >= 8,
        prev.len() >= 8,
        forall|i: int| 0 <= i < 8 ==> now[i] == prev[i],
    ensures
        presses_among(keys, now, prev).len() == 0,
    decreases keys.len(),
{
    if keys.len() > 0 {
        lemma_no_presses_against_itself(keys.drop_last(), now, prev);
    }
}

/// A control held across two reports is reported once: a report read right
/// after the same report brings no press.
pub proof fn law_held_control_reported_once(report: Seq<u8>)
    requires
        report.len() >= 8,
    ensures
        report_presses(report, report.take(8)).len() == 0,
{
    lemma_no_presses_against_itself(spec_scan_order(), report, report.take(8));
}

proof fn lemma_presses_among_contains(keys: Seq<G13Key>, now: Seq<u8>, prev: Seq<u8>, k: G13Key)
    ensures
        presses_among(keys, now, prev).contains(k) <==> (keys.contains(k) && newly_pressed(k, now, prev)),
    decreases keys.len(),
{
    if keys.len() > 0 {
        let init = keys.drop_last();
        lemma_presses_among_contains(init, now, prev, k);
        let rest = presses_among(init, now, prev);
        if keys.contains(k) && k != keys.last() {
            let i = choose|i: int| 0 <= i < keys.len() && keys[i] == k;
            assert(init[i] == k);
        }
        if init.contains(k) {
            let i = choose|i: int| 0 <= i < init.len() && init[i] == k;
            assert(keys[i] == k);
        }
        if keys.last() == k {
            assert(keys[keys.len() - 1] == k);
        }
        if newly_pressed(keys.last(), now, prev) {
            assert(rest.push(keys.last())[rest.len() as int] == keys.last());
            if rest.contains(k) {
                let j = choose|j: int| 0 <= j < rest.len() && rest[j] == k;
                assert(rest.push(keys.last())[j] == k);
            }
            if rest.push(keys.last()).contains(k) && k != keys.last() {
                let j = choose|j: int| 0 <= j < rest.len() + 1 && rest.push(keys.last())[j] == k;
                assert(rest[j] == k);
            }
        }
    }
}

/// A report brings a press of a control exactly when that control is held
/// in it and was released in the report before.
pub proof fn law_presses_are_rising_edges(now: Seq<u8>, prev: Seq<u8>, k: G13Key)
    ensures
        report_presses(now, prev).contains(k) <==> newly_pressed(k, now, prev),
{
    lemma_presses_among_contains(spec_scan_order(), now, prev, k);
    let order = spec_scan_order();
    assert(order.contains(k)) by {
        match k {
            G13Key::Top1 => assert(order[0] == k),
            G13Key::Top2 => assert(order[1] == k),
            G13Key::Top3 => assert(order[2] == k),
            G13Key::Top4 => assert(order[3] == k),
            G13Key::M1 => assert(order[4] == k),
            G13Key::M2 => assert(order[5] == k),
            G13Key::M3 => assert(order[6] == k),
            G13Key::Mr => assert(order[7] == k),
            G13Key::Extra1 => assert(order[8] == k),
            G13Key::Extra2 => assert(order[9] == k),
            G13Key::StickClick => assert(order[10] == k),
            G13Key::G1 => assert(order[11] == k),
            G13Key::G2 => assert(order[12] == k),
            G13Key::G3 => assert(order[13] == k),
            G13Key::G4 => assert(order[14] == k),
            G13Key::G5 => assert(order[15] == k),
            G13Key::G6 => assert(order[16] == k),
            G13Key::G7 => assert(order[17] == k),
            G13Key::G8 => assert(order[18] == k),
            G13Key::G9 => assert(order[19] == k),
            G13Key::G10 => assert(order[20] == k),
            G13Key::G11 => assert(order[21] == k),
            G13Key::G12 => assert(order[22] == k),
            G13Key::G13 => assert(order[23] == k),
            G13Key::G14 => assert(order[24] == k),
            G13Key::G15 => assert(order[25] == k),
            G13Key::G16 => assert(order[26] == k),
            G13Key::G17 => assert(order[27] == k),
            G13Key::G18 => assert(order[28] == k),
            G13Key::G19 => assert(order[29] == k),
            G13Key::G20 => assert(order[30] == k),
            G13Key::G21 => assert(order[31] == k),
            G13Key::G22 => assert(order[32] == k),
            G13Key::StickUp => assert(order[33] == k),
            G13Key::StickDown => assert(order[34] == k),
            G13Key::StickLeft => assert(order[35] == k),
            G13Key::StickRight => assert(order[36] == k),
        }
    }
}

/// The G13's input layout: each button is held exactly when its own bit of
/// the report is set (the display keys, M keys, MR, the extra keys and the
/// stick click in bytes 6 and 7, G1 to G22 in bytes 3 to 5, one bit each in
/// order), and each stick direction exactly when the stick's coordinate lies
/// beyond its threshold; each control is reported under its printed name.
pub proof fn law_device_layout(k: G13Key, r: Seq<u8>)
    ensures
        is_down(k, r) == match k {
            G13Key::Top1 => r[6] & 0x02u8 != 0,
            G13Key::Top2 => r[6] & 0x04u8 != 0,
            G13Key::Top3 => r[6] & 0x08u8 != 0,
            G13Key::Top4 => r[6] & 0x10u8 != 0,
            G13Key::M1 => r[6] & 0x20u8 != 0,
            G13Key::M2 => r[6] & 0x40u8 != 0,
            G13Key::M3 => r[6] & 0x80u8 != 0,
            G13Key::Mr => r[7] & 0x01u8 != 0,
            G13Key::Extra1 => r[7] & 0x02u8 != 0,
            G13Key::Extra2 => r[7] & 0x04u8 != 0,
            G13Key::StickClick => r[7] & 0x08u8 != 0,
            G13Key::G1 => r[3] & 0x01u8 != 0,
            G13Key::G2 => r[3] & 0x02u8 != 0,
            G13Key::G3 => r[3] & 0x04u8 != 0,
            G13Key::G4 => r[3] & 0x08u8 != 0,
            G13Key::G5 => r[3] & 0x10u8 != 0,
            G13Key::G6 => r[3] & 0x20u8 != 0,
            G13Key::G7 => r[3] & 0x40u8 != 0,
            G13Key::G8 => r[3] & 0x80u8 != 0,
            G13Key::G9 => r[4] & 0x01u8 != 0,
            G13Key::G10 => r[4] & 0x02u8 != 0,
            G13Key::G11 => r[4] & 0x04u8 != 0,
            G13Key::G12 => r[4] & 0x08u8 != 0,
            G13Key::G13 => r[4] & 0x10u8 != 0,
            G13Key::G14 => r[4] & 0x20u8 != 0,
            G13Key::G15 => r[4] & 0x40u8 != 0,
            G13Key::G16 => r[4] & 0x80u8 != 0,
            G13Key::G17 => r[5] & 0x01u8 != 0,
            G13Key::G18 => r[5] & 0x02u8 != 0,
            G13Key::G19 => r[5] & 0x04u8 != 0,
            G13Key::G20 => r[5] & 0x08u8 != 0,
            G13Key::G21 => r[5] & 0x10u8 != 0,
            G13Key::G22 => r[5] & 0x20u8 != 0,
            G13Key::StickUp => r[2] < 50,
            G13Key::StickDown => r[2] > 200,
            G13Key::StickLeft => r[1] < 50,
            G13Key::StickRight => r[1] > 200,
        },
        spec_key_name(k) == match k {
            G13Key::Top1 => "TOP1"@,
            G13Key::Top2 => "TOP2"@,
            G13Key::Top3 => "TOP3"@,
            G13Key::Top4 => "TOP4"@,
            G13Key::M1 => "M1"@,
            G13Key::M2 => "M2"@,
            G13Key::M3 => "M3"@,
            G13Key::Mr => "MR"@,
            G13Key::Extra1 => "EXTRA1"@,
            G13Key::Extra2 => "EXTRA2"@,
            G13Key::StickClick => "STICK_CLICK"@,
            G13Key::G1 => "G1"@,
            G13Key::G2 => "G2"@,
            G13Key::G3 => "G3"@,
            G13Key::G4 => "G4"@,
            G13Key::G5 => "G5"@,
            G13Key::G6 => "G6"@,
            G13Key::G7 => "G7"@,
            G13Key::G8 => "G8"@,
            G13Key::G9 => "G9"@,
            G13Key::G10 => "G10"@,
            G13Key::G11 => "G11"@,
            G13Key::G12 => "G12"@,
            G13Key::G13 => "G13"@,
            G13Key::G14 => "G14"@,
            G13Key::G15 => "G15"@,
            G13Key::G16 => "G16"@,
            G13Key::G17 => "G17"@,
            G13Key::G18 => "G18"@,
            G13Key::G19 => "G19"@,
            G13Key::G20 => "G20"@,
            G13Key::G21 => "G21"@,
            G13Key::G22 => "G22"@,
            G13Key::StickUp => "STICK_UP"@,
            G13Key::StickDown => "STICK_DOWN"@,
            G13Key::StickLeft => "STICK_LEFT"@,
            G13Key::StickRight => "STICK_RIGHT"@,
        },
{
}

/// The position of a control in the device's table: the display keys, the
/// M keys, MR, the extra keys and the stick click, G1 to G22, then the stick
/// directions up, down, left and right.
pub open spec fn table_position(k: G13Key) -> int {
    match k {
        G13Key::Top1 => 0,
        G13Key::Top2 => 1,
        G13Key::Top3 => 2,
        G13Key::Top4 => 3,
        G13Key::M1 => 4,
        G13Key::M2 => 5,
        G13Key::M3 => 6,
        G13Key::Mr => 7,
        G13Key::Extra1 => 8,
        G13Key::Extra2 => 9,
        G13Key::StickClick => 10,
        G13Key::G1 => 11,
        G13Key::G2 => 12,
        G13Key::G3 => 13,
        G13Key::G4 => 14,
        G13Key::G5 => 15,
        G13Key::G6 => 16,
        G13Key::G7 => 17,
        G13Key::G8 => 18,
        G13Key::G9 => 19,
        G13Key::G10 => 20,
        G13Key::G11 => 21,
        G13Key::G12 => 22,
        G13Key::G13 => 23,
        G13Key::G14 => 24,
        G13Key::G15 => 25,
        G13Key::G16 => 26,
        G13Key::G17 => 27,
        G13Key::G18 => 28,
        G13Key::G19 => 29,
        G13Key::G20 => 30,
        G13Key::G21 => 31,
        G13Key::G22 => 32,
        G13Key::StickUp => 33,
        G13Key::StickDown => 34,
        G13Key::StickLeft => 35,
        G13Key::StickRight => 36,
    }
}

proof fn lemma_scan_positions()
    ensures
        spec_scan_order().len() == 37,
        forall|p: int| 0 <= p < 37 ==> table_position(#[trigger] spec_scan_order()[p]) == p,
{
    let o = spec_scan_order();
    assert forall|p: int| 0 <= p < 37 implies table_position(#[trigger] o[p]) == p by {
        if p == 0 { assert(o[0] == G13Key::Top1); }
        if p == 1 { assert(o[1] == G13Key::Top2); }
        if p == 2 { assert(o[2] == G13Key::Top3); }
        if p == 3 { assert(o[3] == G13Key::Top4); }
        if p == 4 { assert(o[4] == G13Key::M1); }
        if p == 5 { assert(o[5] == G13Key::M2); }
        if p == 6 { assert(o[6] == G13Key::M3); }
        if p == 7 { assert(o[7] == G13Key::Mr); }
        if p == 8 { assert(o[8] == G13Key::Extra1); }
        if p == 9 { assert(o[9] == G13Key::Extra2); }
        if p == 10 { assert(o[10] == G13Key::StickClick); }
        if p == 11 { assert(o[11] == G13Key::G1); }
        if p == 12 { assert(o[12] == G13Key::G2); }
        if p == 13 { assert(o[13] == G13Key::G3); }
        if p == 14 { assert(o[14] == G13Key::G4); }
        if p == 15 { assert(o[15] == G13Key::G5); }
        if p == 16 { assert(o[16] == G13Key::G6); }
        if p == 17 { assert(o[17] == G13Key::G7); }
        if p == 18 { assert(o[18] == G13Key::G8); }
        if p == 19 { assert(o[19] == G13Key::G9); }
        if p == 20 { assert(o[20] == G13Key::G10); }
        if p == 21 { assert(o[21] == G13Key::G11); }
        if p == 22 { assert(o[22] == G13Key::G12); }
        if p == 23 { assert(o[23] == G13Key::G13); }
        if p == 24 { assert(o[24] == G13Key::G14); }
        if p == 25 { assert(o[25] == G13Key::G15); }
        if p == 26 { assert(o[26] == G13Key::G16); }
        if p == 27 { assert(o[27] == G13Key::G17); }
        if p == 28 { assert(o[28] == G13Key::G18); }
        if p == 29 { assert(o[29] == G13Key::G19); }
        if p == 30 { assert(o[30] == G13Key::G20); }
        if p == 31 { assert(o[31] == G13Key::G21); }
        if p == 32 { assert(o[32] == G13Key::G22); }
        if p == 33 { assert(o[33] == G13Key::StickUp); }
        if p == 34 { assert(o[34] == G13Key::StickDown); }
        if p == 35 { assert(o[35] == G13Key::StickLeft); }
        if p == 36 { assert(o[36] == G13Key::StickRight); }
    }
}

proof fn lemma_presses_in_order(n: int, now: Seq<u8>, prev: Seq<u8>)
    requires
        0 <= n <= 37,
    ensures
        ({
            let r = presses_among(spec_scan_order().take(n), now, prev);
            &&& forall|i: int| 0 <= i < r.len() ==> 0 <= #[trigger] table_position(r[i]) < n
            &&& forall|i: int, j: int|
                0 <= i < j < r.len() ==> table_position(#[trigger] r[i]) < table_position(#[trigger] r[j])
        }),
    decreases n,
{
    lemma_scan_positions();
    if n > 0 {
        lemma_presses_in_order(n - 1, now, prev);
        let o = spec_scan_order();
        assert(o.take(n).drop_last() =~= o.take(n - 1));
        assert(o.take(n).last() == o[n - 1]);
        let before = presses_among(o.take(n - 1), now, prev);
        let r = presses_among(o.take(n), now, prev);
        assert(table_position(o[n - 1]) == n - 1);
        if newly_pressed(o[n - 1], now, prev) {
            assert(r == before.push(o[n - 1]));
            assert forall|i: int| 0 <= i < r.len() implies 0 <= #[trigger] table_position(r[i]) < n by {
                if i < before.len() {
                    assert(r[i] == before[i]);
                }
            }
            assert forall|i: int, j: int| 0 <= i < j < r.len() implies table_position(#[trigger] r[i]) < table_position(#[trigger] r[j]) by {
                assert(r[i] == before[i]);
                if j < before.len() {
                    assert(r[j] == before[j]);
                } else {
                    assert(table_position(before[i]) < n - 1);
                }
            }
        } else {
            assert(r == before);
        }
    }
}

/// A report's presses come in the order of the device's table, each control
/// at most once: every press stands before every press of a control later
/// in the table.
pub proof fn law_presses_follow_the_table(now: Seq<u8>, prev: Seq<u8>)
    ensures
        forall|i: int, j: int|
            0 <= i < j < report_presses(now, prev).len() ==> table_position(
                #[trigger] report_presses(now, prev)[i],
            ) < table_position(#[trigger] report_presses(now, prev)[j]),
{
    lemma_scan_positions();
    lemma_presses_in_order(37, now, prev);
    assert(spec_scan_order().take(37) =~= spec_scan_order());
}

/// Whether a USB device is a G13: Logitech's vendor id `0x046d` and the G13's product id `0xc21c`.
pub fn is_g13_device(vendor_id: u16, product_id: u16) -> (b: bool)
    ensures
        b == (vendor_id == 0x046d && product_id == 0xc21c),
{
    vendor_id == 0x046d && product_id == 0xc21c
}

} // verus!
