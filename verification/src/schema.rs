//! Schema-directed parsing of device replies: walkers over the byte-level
//! JSON grammar that build the typed reply shapes, each one mirrored by a
//! specification function so that what parses, and to what value, is pinned
//! down exactly.  Unknown members are skipped, as the devices add fields
//! freely; a required member that is missing or of the wrong shape makes
//! the whole document unparseable.

use vstd::prelude::*;
use vstd::string::StringSliceAdditionalSpecFns;
use crate::json::{
    spec_ws, spec_string_body, spec_number, spec_skip_value, spec_lit_at, lit_null,
    skip_ws, parse_string_body, parse_number, skip_value, bytes_eq, match_lit, lit_null_vec,
};
use crate::models::{
    NextAction, KasaChildren, KasaChildrenV, SysInfo, SysInfoV, Realtime, System, SystemV,
    Emeter, EmeterV, KasaResp, KasaRespV,
};

verus! {

/// A JSON string value at `i`: its content bytes and the cursor after it.
pub open spec fn spec_string_value(s: Seq<u8>, i: int) -> Option<(Seq<u8>, int)> {
    if 0 <= i < s.len() && s[i] == 34 {
        spec_string_body(s, i + 1)
    } else {
        None
    }
}

pub fn parse_string_value(s: &[u8], i: usize) -> (r: Option<(Vec<u8>, usize)>)
    requires
        i <= s@.len(),
    ensures
        match r {
            Some(v) => spec_string_value(s@, i as int) == Some((v.0@, v.1 as int)) && i < v.1
                <= s@.len(),
            None => spec_string_value(s@, i as int) is None,
        },
{
    if i < s.len() && s[i] == 34 {
        parse_string_body(s, i + 1)
    } else {
        None
    }
}

/// A JSON integer value at `i` that fits the field's width.
pub open spec fn spec_u8_value(s: Seq<u8>, i: int) -> Option<(u8, int)> {
    match spec_number(s, i) {
        Some((x, j)) => if 0 <= x <= u8::MAX {
            Some((x as u8, j))
        } else {
            None
        },
        None => None,
    }
}

pub fn parse_u8_value(s: &[u8], i: usize) -> (r: Option<(u8, usize)>)
    requires
        i <= s@.len(),
    ensures
        match r {
            Some(v) => spec_u8_value(s@, i as int) == Some((v.0, v.1 as int)) && i < v.1 <= s@.len(),
            None => spec_u8_value(s@, i as int) is None,
        },
{
    match parse_number(s, i) {
        Some((x, j)) => if x >= 0 && x <= u8::MAX as i64 {
            Some((x as u8, j))
        } else {
            None
        },
        None => None,
    }
}

/// A JSON integer value at `i` that fits the field's width.
pub open spec fn spec_u32_value(s: Seq<u8>, i: int) -> Option<(u32, int)> {
    match spec_number(s, i) {
        Some((x, j)) => if 0 <= x <= u32::MAX {
            Some((x as u32, j))
        } else {
            None
        },
        None => None,
    }
}

pub fn parse_u32_value(s: &[u8], i: usize) -> (r: Option<(u32, usize)>)
    requires
        i <= s@.len(),
    ensures
        match r {
            Some(v) => spec_u32_value(s@, i as int) == Some((v.0, v.1 as int)) && i < v.1 <= s@.len(),
            None => spec_u32_value(s@, i as int) is None,
        },
{
    match parse_number(s, i) {
        Some((x, j)) => if x >= 0 && x <= u32::MAX as i64 {
            Some((x as u32, j))
        } else {
            None
        },
        None => None,
    }
}

/// A JSON integer value at `i` that fits the field's width.
pub open spec fn spec_i32_value(s: Seq<u8>, i: int) -> Option<(i32, int)> {
    match spec_number(s, i) {
        Some((x, j)) => if i32::MIN <= x <= i32::MAX {
            Some((x as i32, j))
        } else {
            None
        },
        None => None,
    }
}

pub fn parse_i32_value(s: &[u8], i: usize) -> (r: Option<(i32, usize)>)
    requires
        i <= s@.len(),
    ensures
        match r {
            Some(v) => spec_i32_value(s@, i as int) == Some((v.0, v.1 as int)) && i < v.1 <= s@.len(),
            None => spec_i32_value(s@, i as int) is None,
        },
{
    match parse_number(s, i) {
        Some((x, j)) => if x >= i32::MIN as i64 && x <= i32::MAX as i64 {
            Some((x as i32, j))
        } else {
            None
        },
        None => None,
    }
}

/// A JSON integer value at `i` that fits the field's width.
pub open spec fn spec_u64_value(s: Seq<u8>, i: int) -> Option<(u64, int)> {
    match spec_number(s, i) {
        Some((x, j)) => if 0 <= x {
            Some((x as u64, j))
        } else {
            None
        },
        None => None,
    }
}

pub fn parse_u64_value(s: &[u8], i: usize) -> (r: Option<(u64, usize)>)
    requires
        i <= s@.len(),
    ensures
        match r {
            Some(v) => spec_u64_value(s@, i as int) == Some((v.0, v.1 as int)) && i < v.1 <= s@.len(),
            None => spec_u64_value(s@, i as int) is None,
        },
{
    match parse_number(s, i) {
        Some((x, j)) => if x >= 0 {
            Some((x as u64, j))
        } else {
            None
        },
        None => None,
    }
}

/// A JSON integer value at `i` that fits the field's width.
pub open spec fn spec_usize_value(s: Seq<u8>, i: int) -> Option<(usize, int)> {
    match spec_number(s, i) {
        Some((x, j)) => if 0 <= x <= u32::MAX {
            Some((x as usize, j))
        } else {
            None
        },
        None => None,
    }
}

pub fn parse_usize_value(s: &[u8], i: usize) -> (r: Option<(usize, usize)>)
    requires
        i <= s@.len(),
    ensures
        match r {
            Some(v) => spec_usize_value(s@, i as int) == Some((v.0, v.1 as int)) && i < v.1 <= s@.len(),
            None => spec_usize_value(s@, i as int) is None,
        },
{
    match parse_number(s, i) {
        Some((x, j)) => if x >= 0 && x <= u32::MAX as i64 {
            Some((x as usize, j))
        } else {
            None
        },
        None => None,
    }
}

/// Which required members of a scheduled-action object have been seen.
#[derive(Clone, Copy, PartialEq, Eq, Structural)]
pub struct NaSeen {
    pub type_code: bool,
}

/// Which required members of a child-outlet object have been seen.
#[derive(Clone, Copy, PartialEq, Eq, Structural)]
pub struct ChildSeen {
    pub id: bool,
    pub state: bool,
    pub alias: bool,
    pub on_time: bool,
    pub next_action: bool,
}

/// Which required members of a telemetry object have been seen.
#[derive(Clone, Copy, PartialEq, Eq, Structural)]
pub struct RealtimeSeen {
    pub current_ma: bool,
    pub err_code: bool,
    pub power_mw: bool,
    pub slot_id: bool,
    pub total_wh: bool,
    pub voltage_mv: bool,
}

/// Which required members of a state-snapshot object have been seen; the
/// members with a protocol default are not tracked.
#[derive(Clone, Copy, PartialEq, Eq, Structural)]
#[allow(non_snake_case)]
pub struct SysInfoSeen {
    pub alias: bool,
    pub deviceId: bool,
    pub err_code: bool,
    pub feature: bool,
    pub hwId: bool,
    pub hw_ver: bool,
    pub latitude_i: bool,
    pub led_off: bool,
    pub longitude_i: bool,
    pub mac: bool,
    pub mic_type: bool,
    pub model: bool,
    pub oemId: bool,
    pub rssi: bool,
    pub status: bool,
    pub sw_ver: bool,
    pub updating: bool,
}

/// The telemetry accumulator before any member is seen.
pub open spec fn spec_realtime_init() -> Realtime {
    Realtime { current_ma: 0, err_code: 0, power_mw: 0, slot_id: 0, total_wh: 0, voltage_mv: 0 }
}

fn realtime_init() -> (r: Realtime)
    ensures
        r == spec_realtime_init(),
{
    Realtime { current_ma: 0, err_code: 0, power_mw: 0, slot_id: 0, total_wh: 0, voltage_mv: 0 }
}

/// No telemetry member seen yet.
pub open spec fn spec_realtime_seen_init() -> RealtimeSeen {
    RealtimeSeen {
        current_ma: false,
        err_code: false,
        power_mw: false,
        slot_id: false,
        total_wh: false,
        voltage_mv: false,
    }
}

fn realtime_seen_init() -> (r: RealtimeSeen)
    ensures
        r == spec_realtime_seen_init(),
{
    RealtimeSeen {
        current_ma: false,
        err_code: false,
        power_mw: false,
        slot_id: false,
        total_wh: false,
        voltage_mv: false,
    }
}

/// No child-outlet member seen yet.
pub open spec fn spec_child_seen_init() -> ChildSeen {
    ChildSeen { id: false, state: false, alias: false, on_time: false, next_action: false }
}

fn child_seen_init() -> (r: ChildSeen)
    ensures
        r == spec_child_seen_init(),
{
    ChildSeen { id: false, state: false, alias: false, on_time: false, next_action: false }
}

/// No state-snapshot member seen yet.
pub open spec fn spec_sysinfo_seen_init() -> SysInfoSeen {
    SysInfoSeen {
        alias: false,
        deviceId: false,
        err_code: false,
        feature: false,
        hwId: false,
        hw_ver: false,
        latitude_i: false,
        led_off: false,
        longitude_i: false,
        mac: false,
        mic_type: false,
        model: false,
        oemId: false,
        rssi: false,
        status: false,
        sw_ver: false,
        updating: false,
    }
}

fn sysinfo_seen_init() -> (r: SysInfoSeen)
    ensures
        r == spec_sysinfo_seen_init(),
{
    SysInfoSeen {
        alias: false,
        deviceId: false,
        err_code: false,
        feature: false,
        hwId: false,
        hw_ver: false,
        latitude_i: false,
        led_off: false,
        longitude_i: false,
        mac: false,
        mic_type: false,
        model: false,
        oemId: false,
        rssi: false,
        status: false,
        sw_ver: false,
        updating: false,
    }
}

/// The child-outlet accumulator before any member is seen.
pub open spec fn spec_child_init() -> KasaChildrenV {
    KasaChildrenV {
        id: Seq::empty(),
        state: 0,
        alias: Seq::empty(),
        on_time: 0,
        next_action: NextAction { type_code: 0 },
    }
}

fn child_init() -> (r: KasaChildren)
    ensures
        r@ == spec_child_init(),
{
    let r = KasaChildren {
        id: Vec::new(),
        state: 0,
        alias: Vec::new(),
        on_time: 0,
        next_action: NextAction { type_code: 0 },
    };
    proof {
        assert(r@ =~= spec_child_init());
    }
    r
}

/// The state-snapshot accumulator before any member is seen: the members
/// with a protocol default start at that default (zero, or empty).
pub open spec fn spec_sysinfo_init() -> SysInfoV {
    SysInfoV {
        alias: Seq::empty(),
        child_num: 0,
        children: Seq::empty(),
        deviceId: Seq::empty(),
        err_code: 0,
        feature: Seq::empty(),
        hwId: Seq::empty(),
        hw_ver: Seq::empty(),
        latitude_i: 0,
        led_off: 0,
        longitude_i: 0,
        mac: Seq::empty(),
        mic_type: Seq::empty(),
        model: Seq::empty(),
        oemId: Seq::empty(),
        on_time: 0,
        relay_state: 0,
        rssi: 0,
        status: Seq::empty(),
        sw_ver: Seq::empty(),
        updating: 0,
    }
}

fn sysinfo_init() -> (r: SysInfo)
    ensures
        r@ == spec_sysinfo_init(),
{
    let r = SysInfo {
        alias: Vec::new(),
        child_num: 0,
        children: Vec::new(),
        deviceId: Vec::new(),
        err_code: 0,
        feature: Vec::new(),
        hwId: Vec::new(),
        hw_ver: Vec::new(),
        latitude_i: 0,
        led_off: 0,
        longitude_i: 0,
        mac: Vec::new(),
        mic_type: Vec::new(),
        model: Vec::new(),
        oemId: Vec::new(),
        on_time: 0,
        relay_state: 0,
        rssi: 0,
        status: Vec::new(),
        sw_ver: Vec::new(),
        updating: 0,
    };
    proof {
        assert(r.children.deep_view() =~= Seq::<KasaChildrenV>::empty());
        assert(r@ =~= spec_sysinfo_init());
    }
    r
}

/// Every member that the schema requires has been seen.
pub open spec fn spec_na_required(seen: NaSeen) -> bool {
    &&& seen.type_code
}

fn na_required(seen: NaSeen) -> (r: bool)
    ensures
        r == spec_na_required(seen),
{
    seen.type_code
}

/// One member of a scheduled-action object, dispatched on its key.
pub open spec fn spec_na_step(
    s: Seq<u8>,
    b: int,
    key: Seq<u8>, acc: NextAction, seen: NaSeen,
) -> Option<(NextAction, NaSeen, int)> {
    if key == "type".spec_bytes() {
        match spec_i32_value(s, b) {
            Some((x, c)) => Some(
                (NextAction { type_code: x, ..acc }, NaSeen { type_code: true, ..seen }, c),
            ),
            None => None,
        }
    } else {
        match spec_skip_value(s, b) {
            Some(c) => Some((acc, seen, c)),
            None => None,
        }
    }
}

pub fn parse_na_step(
    s: &[u8],
    b: usize,
    key: &Vec<u8>, acc: NextAction, seen: NaSeen,
) -> (r: Option<(NextAction, NaSeen, usize)>)
    requires
        b <= s@.len(),
    ensures
        match r {
            Some(v) => spec_na_step(s@, b as int, key@, acc, seen) == Some(
                (v.0, v.1, v.2 as int),
            ) && b < v.2 <= s@.len(),
            None => spec_na_step(s@, b as int, key@, acc, seen) is None,
        },
{
    if bytes_eq(key.as_slice(), "type".as_bytes()) {
        match parse_i32_value(s, b) {
            Some((x, c)) => Some(
                (NextAction { type_code: x, ..acc }, NaSeen { type_code: true, ..seen }, c),
            ),
            None => None,
        }
    } else {
        match skip_value(s, b) {
            Some(c) => Some((acc, seen, c)),
            None => None,
        }
    }
}

/// The members of a scheduled-action object, entered at a key or at the
/// closing brace; the `type` member is required.
pub open spec fn spec_na_members(
    s: Seq<u8>,
    i: int, acc: NextAction, seen: NaSeen,
    allow_end: bool,
) -> Option<(NextAction, int)>
    decreases s.len() - i,
{
    if i < 0 || i >= s.len() {
        None
    } else if s[i] == 125 {
        if allow_end && spec_na_required(seen) {
            Some((acc, i + 1))
        } else {
            None
        }
    } else if s[i] != 34 {
        None
    } else {
        match spec_string_body(s, i + 1) {
            Some((key, j)) => {
                if i < j <= s.len() {
                    let a = spec_ws(s, j);
                    if j <= a <= s.len() && a < s.len() && s[a] == 58 {
                        let b = spec_ws(s, a + 1);
                        if a + 1 <= b <= s.len() {
                            match spec_na_step(s, b, key, acc, seen) {
                                Some((acc2, seen2, c)) => {
                                    if b <= c <= s.len() {
                                        let e = spec_ws(s, c);
                                        if c <= e <= s.len() && e < s.len() {
                                            if s[e] == 44 {
                                                let m = spec_ws(s, e + 1);
                                                if e + 1 <= m <= s.len() {
                                                    spec_na_members(s, m, acc2, seen2, false)
                                                } else {
                                                    None
                                                }
                                            } else if s[e] == 125 {
                                                if spec_na_required(seen2) {
                                                    Some((acc2, e + 1))
                                                } else {
                                                    None
                                                }
                                            } else {
                                                None
                                            }
                                        } else {
                                            None
                                        }
                                    } else {
                                        None
                                    }
                                },
                                None => None,
                            }
                        } else {
                            None
                        }
                    } else {
                        None
                    }
                } else {
                    None
                }
            },
            None => None,
        }
    }
}

pub fn parse_na_members(
    s: &[u8],
    i: usize, acc: NextAction, seen: NaSeen,
    allow_end: bool,
) -> (r: Option<(NextAction, usize)>)
    requires
        i <= s@.len(),
    ensures
        match r {
            Some(v) => spec_na_members(s@, i as int, acc, seen, allow_end) == Some((v.0, v.1 as int)) && i
                < v.1 <= s@.len(),
            None => spec_na_members(s@, i as int, acc, seen, allow_end) is None,
        },
    decreases s@.len() - i,
{
    if i >= s.len() {
        return None;
    }
    if s[i] == 125 {
        if allow_end && na_required(seen) {
            return Some((acc, i + 1));
        } else {
            return None;
        }
    }
    if s[i] != 34 {
        return None;
    }
    match parse_string_body(s, i + 1) {
        Some((key, j)) => {
            let a = skip_ws(s, j);
            if !(a < s.len() && s[a] == 58) {
                return None;
            }
            let b = skip_ws(s, a + 1);
            match parse_na_step(s, b, &key, acc, seen) {
                Some((acc2, seen2, c)) => {
                    let e = skip_ws(s, c);
                    if e < s.len() && s[e] == 44 {
                        let m = skip_ws(s, e + 1);
                        parse_na_members(s, m, acc2, seen2, false)
                    } else if e < s.len() && s[e] == 125 {
                        if na_required(seen2) {
                            Some((acc2, e + 1))
                        } else {
                            None
                        }
                    } else {
                        None
                    }
                },
                None => None,
            }
        },
        None => None,
    }
}

/// A scheduled-action object value at `i`.
pub open spec fn spec_na_value(s: Seq<u8>, i: int) -> Option<(NextAction, int)> {
    if 0 <= i < s.len() && s[i] == 123 {
        let j = spec_ws(s, i + 1);
        if i + 1 <= j <= s.len() {
            spec_na_members(s, j, NextAction { type_code: 0 }, NaSeen { type_code: false }, true)
        } else {
            None
        }
    } else {
        None
    }
}

pub fn parse_na_value(s: &[u8], i: usize) -> (r: Option<(NextAction, usize)>)
    requires
        i <= s@.len(),
    ensures
        match r {
            Some(v) => spec_na_value(s@, i as int) == Some((v.0, v.1 as int)) && i < v.1
                <= s@.len(),
            None => spec_na_value(s@, i as int) is None,
        },
{
    if i < s.len() && s[i] == 123 {
        let j = skip_ws(s, i + 1);
        parse_na_members(s, j, NextAction { type_code: 0 }, NaSeen { type_code: false }, true)
    } else {
        None
    }
}

/// Every member that the schema requires has been seen.
pub open spec fn spec_realtime_required(seen: RealtimeSeen) -> bool {
    &&& seen.current_ma
    &&& seen.err_code
    &&& seen.power_mw
    &&& seen.slot_id
    &&& seen.total_wh
    &&& seen.voltage_mv
}

fn realtime_required(seen: RealtimeSeen) -> (r: bool)
    ensures
        r == spec_realtime_required(seen),
{
    seen.current_ma && seen.err_code && seen.power_mw && seen.slot_id && seen.total_wh
        && seen.voltage_mv
}

/// One member of a telemetry object, dispatched on its key.
pub open spec fn spec_realtime_step(
    s: Seq<u8>,
    b: int,
    key: Seq<u8>, acc: Realtime, seen: RealtimeSeen,
) -> Option<(Realtime, RealtimeSeen, int)> {
    if key == "current_ma".spec_bytes() {
        match spec_u32_value(s, b) {
            Some((x, c)) => Some(
                (Realtime { current_ma: x, ..acc }, RealtimeSeen { current_ma: true, ..seen }, c),
            ),
            None => None,
        }
    } else if key == "err_code".spec_bytes() {
        match spec_u32_value(s, b) {
            Some((x, c)) => Some(
                (Realtime { err_code: x, ..acc }, RealtimeSeen { err_code: true, ..seen }, c),
            ),
            None => None,
        }
    } else if key == "power_mw".spec_bytes() {
        match spec_u32_value(s, b) {
            Some((x, c)) => Some(
                (Realtime { power_mw: x, ..acc }, RealtimeSeen { power_mw: true, ..seen }, c),
            ),
            None => None,
        }
    } else if key == "slot_id".spec_bytes() {
        match spec_u32_value(s, b) {
            Some((x, c)) => Some(
                (Realtime { slot_id: x, ..acc }, RealtimeSeen { slot_id: true, ..seen }, c),
            ),
            None => None,
        }
    } else if key == "total_wh".spec_bytes() {
        match spec_u32_value(s, b) {
            Some((x, c)) => Some(
                (Realtime { total_wh: x, ..acc }, RealtimeSeen { total_wh: true, ..seen }, c),
            ),
            None => None,
        }
    } else if key == "voltage_mv".spec_bytes() {
        match spec_u32_value(s, b) {
            Some((x, c)) => Some(
                (Realtime { voltage_mv: x, ..acc }, RealtimeSeen { voltage_mv: true, ..seen }, c),
            ),
            None => None,
        }
    } else {
        match spec_skip_value(s, b) {
            Some(c) => Some((acc, seen, c)),
            None => None,
        }
    }
}

pub fn parse_realtime_step(
    s: &[u8],
    b: usize,
    key: &Vec<u8>, acc: Realtime, seen: RealtimeSeen,
) -> (r: Option<(Realtime, RealtimeSeen, usize)>)
    requires
        b <= s@.len(),
    ensures
        match r {
            Some(v) => spec_realtime_step(s@, b as int, key@, acc, seen) == Some(
                (v.0, v.1, v.2 as int),
            ) && b < v.2 <= s@.len(),
            None => spec_realtime_step(s@, b as int, key@, acc, seen) is None,
        },
{
    if bytes_eq(key.as_slice(), "current_ma".as_bytes()) {
        match parse_u32_value(s, b) {
            Some((x, c)) => Some(
                (Realtime { current_ma: x, ..acc }, RealtimeSeen { current_ma: true, ..seen }, c),
            ),
            None => None,
        }
    } else if bytes_eq(key.as_slice(), "err_code".as_bytes()) {
        match parse_u32_value(s, b) {
            Some((x, c)) => Some(
                (Realtime { err_code: x, ..acc }, RealtimeSeen { err_code: true, ..seen }, c),
            ),
            None => None,
        }
    } else if bytes_eq(key.as_slice(), "power_mw".as_bytes()) {
        match parse_u32_value(s, b) {
            Some((x, c)) => Some(
                (Realtime { power_mw: x, ..acc }, RealtimeSeen { power_mw: true, ..seen }, c),
            ),
            None => None,
        }
    } else if bytes_eq(key.as_slice(), "slot_id".as_bytes()) {
        match parse_u32_value(s, b) {
            Some((x, c)) => Some(
                (Realtime { slot_id: x, ..acc }, RealtimeSeen { slot_id: true, ..seen }, c),
            ),
            None => None,
        }
    } else if bytes_eq(key.as_slice(), "total_wh".as_bytes()) {
        match parse_u32_value(s, b) {
            Some((x, c)) => Some(
                (Realtime { total_wh: x, ..acc }, RealtimeSeen { total_wh: true, ..seen }, c),
            ),
            None => None,
        }
    } else if bytes_eq(key.as_slice(), "voltage_mv".as_bytes()) {
        match parse_u32_value(s, b) {
            Some((x, c)) => Some(
                (Realtime { voltage_mv: x, ..acc }, RealtimeSeen { voltage_mv: true, ..seen }, c),
            ),
            None => None,
        }
    } else {
        match skip_value(s, b) {
            Some(c) => Some((acc, seen, c)),
            None => None,
        }
    }
}

/// The members of a telemetry object; all six metering members are
/// required.
pub open spec fn spec_realtime_members(
    s: Seq<u8>,
    i: int, acc: Realtime, seen: RealtimeSeen,
    allow_end: bool,
) -> Option<(Realtime, int)>
    decreases s.len() - i,
{
    if i < 0 || i >= s.len() {
        None
    } else if s[i] == 125 {
        if allow_end && spec_realtime_required(seen) {
            Some((acc, i + 1))
        } else {
            None
        }
    } else if s[i] != 34 {
        None
    } else {
        match spec_string_body(s, i + 1) {
            Some((key, j)) => {
                if i < j <= s.len() {
                    let a = spec_ws(s, j);
                    if j <= a <= s.len() && a < s.len() && s[a] == 58 {
                        let b = spec_ws(s, a + 1);
                        if a + 1 <= b <= s.len() {
                            match spec_realtime_step(s, b, key, acc, seen) {
                                Some((acc2, seen2, c)) => {
                                    if b <= c <= s.len() {
                                        let e = spec_ws(s, c);
                                        if c <= e <= s.len() && e < s.len() {
                                            if s[e] == 44 {
                                                let m = spec_ws(s, e + 1);
                                                if e + 1 <= m <= s.len() {
                                                    spec_realtime_members(s, m, acc2, seen2, false)
                                                } else {
                                                    None
                                                }
                                            } else if s[e] == 125 {
                                                if spec_realtime_required(seen2) {
                                                    Some((acc2, e + 1))
                                                } else {
                                                    None
                                                }
                                            } else {
                                                None
                                            }
                                        } else {
                                            None
                                        }
                                    } else {
                                        None
                                    }
                                },
                                None => None,
                            }
                        } else {
                            None
                        }
                    } else {
                        None
                    }
                } else {
                    None
                }
            },
            None => None,
        }
    }
}

pub fn parse_realtime_members(
    s: &[u8],
    i: usize, acc: Realtime, seen: RealtimeSeen,
    allow_end: bool,
) -> (r: Option<(Realtime, usize)>)
    requires
        i <= s@.len(),
    ensures
        match r {
            Some(v) => spec_realtime_members(s@, i as int, acc, seen, allow_end) == Some((v.0, v.1 as int)) && i
                < v.1 <= s@.len(),
            None => spec_realtime_members(s@, i as int, acc, seen, allow_end) is None,
        },
    decreases s@.len() - i,
{
    if i >= s.len() {
        return None;
    }
    if s[i] == 125 {
        if allow_end && realtime_required(seen) {
            return Some((acc, i + 1));
        } else {
            return None;
        }
    }
    if s[i] != 34 {
        return None;
    }
    match parse_string_body(s, i + 1) {
        Some((key, j)) => {
            let a = skip_ws(s, j);
            if !(a < s.len() && s[a] == 58) {
                return None;
            }
            let b = skip_ws(s, a + 1);
            match parse_realtime_step(s, b, &key, acc, seen) {
                Some((acc2, seen2, c)) => {
                    let e = skip_ws(s, c);
                    if e < s.len() && s[e] == 44 {
                        let m = skip_ws(s, e + 1);
                        parse_realtime_members(s, m, acc2, seen2, false)
                    } else if e < s.len() && s[e] == 125 {
                        if realtime_required(seen2) {
                            Some((acc2, e + 1))
                        } else {
                            None
                        }
                    } else {
                        None
                    }
                },
                None => None,
            }
        },
        None => None,
    }
}

/// A telemetry object value at `i`.
pub open spec fn spec_realtime_value(s: Seq<u8>, i: int) -> Option<(Realtime, int)> {
    if 0 <= i < s.len() && s[i] == 123 {
        let j = spec_ws(s, i + 1);
        if i + 1 <= j <= s.len() {
            spec_realtime_members(s, j, spec_realtime_init(), spec_realtime_seen_init(), true)
        } else {
            None
        }
    } else {
        None
    }
}

pub fn parse_realtime_value(s: &[u8], i: usize) -> (r: Option<(Realtime, usize)>)
    requires
        i <= s@.len(),
    ensures
        match r {
            Some(v) => spec_realtime_value(s@, i as int) == Some((v.0, v.1 as int)) && i < v.1
                <= s@.len(),
            None => spec_realtime_value(s@, i as int) is None,
        },
{
    if i < s.len() && s[i] == 123 {
        let j = skip_ws(s, i + 1);
        parse_realtime_members(s, j, realtime_init(), realtime_seen_init(), true)
    } else {
        None
    }
}

/// Every member that the schema requires has been seen.
pub open spec fn spec_child_required(seen: ChildSeen) -> bool {
    &&& seen.id
    &&& seen.state
    &&& seen.alias
    &&& seen.on_time
    &&& seen.next_action
}

fn child_required(seen: ChildSeen) -> (r: bool)
    ensures
        r == spec_child_required(seen),
{
    seen.id && seen.state && seen.alias && seen.on_time && seen.next_action
}

/// One member of a child-outlet object, dispatched on its key.
pub open spec fn spec_child_step(
    s: Seq<u8>,
    b: int,
    key: Seq<u8>, acc: KasaChildrenV, seen: ChildSeen,
) -> Option<(KasaChildrenV, ChildSeen, int)> {
    if key == "id".spec_bytes() {
        match spec_string_value(s, b) {
            Some((x, c)) => Some(
                (KasaChildrenV { id: x, ..acc }, ChildSeen { id: true, ..seen }, c),
            ),
            None => None,
        }
    } else if key == "state".spec_bytes() {
        match spec_u8_value(s, b) {
            Some((x, c)) => Some(
                (KasaChildrenV { state: x, ..acc }, ChildSeen { state: true, ..seen }, c),
            ),
            None => None,
        }
    } else if key == "alias".spec_bytes() {
        match spec_string_value(s, b) {
            Some((x, c)) => Some(
                (KasaChildrenV { alias: x, ..acc }, ChildSeen { alias: true, ..seen }, c),
            ),
            None => None,
        }
    } else if key == "on_time".spec_bytes() {
        match spec_u64_value(s, b) {
            Some((x, c)) => Some(
                (KasaChildrenV { on_time: x, ..acc }, ChildSeen { on_time: true, ..seen }, c),
            ),
            None => None,
        }
    } else if key == "next_action".spec_bytes() {
        match spec_na_value(s, b) {
            Some((x, c)) => Some(
                (KasaChildrenV { next_action: x, ..acc }, ChildSeen { next_action: true, ..seen }, c),
            ),
            None => None,
        }
    } else {
        match spec_skip_value(s, b) {
            Some(c) => Some((acc, seen, c)),
            None => None,
        }
    }
}

#[verifier::rlimit(30)]
pub fn parse_child_step(
    s: &[u8],
    b: usize,
    key: &Vec<u8>, acc: KasaChildren, seen: ChildSeen,
) -> (r: Option<(KasaChildren, ChildSeen, usize)>)
    requires
        b <= s@.len(),
    ensures
        match r {
            Some(v) => spec_child_step(s@, b as int, key@, acc@, seen) == Some(
                (v.0@, v.1, v.2 as int),
            ) && b < v.2 <= s@.len(),
            None => spec_child_step(s@, b as int, key@, acc@, seen) is None,
        },
{
    if bytes_eq(key.as_slice(), "id".as_bytes()) {
        match parse_string_value(s, b) {
            Some((x, c)) => Some(
                (KasaChildren { id: x, ..acc }, ChildSeen { id: true, ..seen }, c),
            ),
            None => None,
        }
    } else if bytes_eq(key.as_slice(), "state".as_bytes()) {
        match parse_u8_value(s, b) {
            Some((x, c)) => Some(
                (KasaChildren { state: x, ..acc }, ChildSeen { state: true, ..seen }, c),
            ),
            None => None,
        }
    } else if bytes_eq(key.as_slice(), "alias".as_bytes()) {
        match parse_string_value(s, b) {
            Some((x, c)) => Some(
                (KasaChildren { alias: x, ..acc }, ChildSeen { alias: true, ..seen }, c),
            ),
            None => None,
        }
    } else if bytes_eq(key.as_slice(), "on_time".as_bytes()) {
        match parse_u64_value(s, b) {
            Some((x, c)) => Some(
                (KasaChildren { on_time: x, ..acc }, ChildSeen { on_time: true, ..seen }, c),
            ),
            None => None,
        }
    } else if bytes_eq(key.as_slice(), "next_action".as_bytes()) {
        match parse_na_value(s, b) {
            Some((x, c)) => Some(
                (KasaChildren { next_action: x, ..acc }, ChildSeen { next_action: true, ..seen }, c),
            ),
            None => None,
        }
    } else {
        match skip_value(s, b) {
            Some(c) => Some((acc, seen, c)),
            None => None,
        }
    }
}

/// The members of a child-outlet object; all five members are required.
pub open spec fn spec_child_members(
    s: Seq<u8>,
    i: int, acc: KasaChildrenV, seen: ChildSeen,
    allow_end: bool,
) -> Option<(KasaChildrenV, int)>
    decreases s.len() - i,
{
    if i < 0 || i >= s.len() {
        None
    } else if s[i] == 125 {
        if allow_end && spec_child_required(seen) {
            Some((acc, i + 1))
        } else {
            None
        }
    } else if s[i] != 34 {
        None
    } else {
        match spec_string_body(s, i + 1) {
            Some((key, j)) => {
                if i < j <= s.len() {
                    let a = spec_ws(s, j);
                    if j <= a <= s.len() && a < s.len() && s[a] == 58 {
                        let b = spec_ws(s, a + 1);
                        if a + 1 <= b <= s.len() {
                            match spec_child_step(s, b, key, acc, seen) {
                                Some((acc2, seen2, c)) => {
                                    if b <= c <= s.len() {
                                        let e = spec_ws(s, c);
                                        if c <= e <= s.len() && e < s.len() {
                                            if s[e] == 44 {
                                                let m = spec_ws(s, e + 1);
                                                if e + 1 <= m <= s.len() {
                                                    spec_child_members(s, m, acc2, seen2, false)
                                                } else {
                                                    None
                                                }
                                            } else if s[e] == 125 {
                                                if spec_child_required(seen2) {
                                                    Some((acc2, e + 1))
                                                } else {
                                                    None
                                                }
                                            } else {
                                                None
                                            }
                                        } else {
                                            None
                                        }
                                    } else {
                                        None
                                    }
                                },
                                None => None,
                            }
                        } else {
                            None
                        }
                    } else {
                        None
                    }
                } else {
                    None
                }
            },
            None => None,
        }
    }
}

pub fn parse_child_members(
    s: &[u8],
    i: usize, acc: KasaChildren, seen: ChildSeen,
    allow_end: bool,
) -> (r: Option<(KasaChildren, usize)>)
    requires
        i <= s@.len(),
    ensures
        match r {
            Some(v) => spec_child_members(s@, i as int, acc@, seen, allow_end) == Some((v.0@, v.1 as int)) && i
                < v.1 <= s@.len(),
            None => spec_child_members(s@, i as int, acc@, seen, allow_end) is None,
        },
    decreases s@.len() - i,
{
    if i >= s.len() {
        return None;
    }
    if s[i] == 125 {
        if allow_end && child_required(seen) {
            return Some((acc, i + 1));
        } else {
            return None;
        }
    }
    if s[i] != 34 {
        return None;
    }
    match parse_string_body(s, i + 1) {
        Some((key, j)) => {
            let a = skip_ws(s, j);
            if !(a < s.len() && s[a] == 58) {
                return None;
            }
            let b = skip_ws(s, a + 1);
            match parse_child_step(s, b, &key, acc, seen) {
                Some((acc2, seen2, c)) => {
                    let e = skip_ws(s, c);
                    if e < s.len() && s[e] == 44 {
                        let m = skip_ws(s, e + 1);
                        parse_child_members(s, m, acc2, seen2, false)
                    } else if e < s.len() && s[e] == 125 {
                        if child_required(seen2) {
                            Some((acc2, e + 1))
                        } else {
                            None
                        }
                    } else {
                        None
                    }
                },
                None => None,
            }
        },
        None => None,
    }
}

/// A child-outlet object value at `i`.
pub open spec fn spec_child_value(s: Seq<u8>, i: int) -> Option<(KasaChildrenV, int)> {
    if 0 <= i < s.len() && s[i] == 123 {
        let j = spec_ws(s, i + 1);
        if i + 1 <= j <= s.len() {
            spec_child_members(s, j, spec_child_init(), spec_child_seen_init(), true)
        } else {
            None
        }
    } else {
        None
    }
}

pub fn parse_child_value(s: &[u8], i: usize) -> (r: Option<(KasaChildren, usize)>)
    requires
        i <= s@.len(),
    ensures
        match r {
            Some(v) => spec_child_value(s@, i as int) == Some((v.0@, v.1 as int)) && i < v.1
                <= s@.len(),
            None => spec_child_value(s@, i as int) is None,
        },
{
    if i < s.len() && s[i] == 123 {
        let j = skip_ws(s, i + 1);
        parse_child_members(s, j, child_init(), child_seen_init(), true)
    } else {
        None
    }
}

/// The remaining elements and closing bracket of a `children` array,
/// entered at an element or, when `allow_end` is set, at the closing
/// bracket; each element must be a child-outlet object.
pub open spec fn spec_children_items(
    s: Seq<u8>,
    i: int,
    acc: Seq<KasaChildrenV>,
    allow_end: bool,
) -> Option<(Seq<KasaChildrenV>, int)>
    decreases s.len() - i,
{
    if i < 0 || i >= s.len() {
        None
    } else if s[i] == 93 {
        if allow_end {
            Some((acc, i + 1))
        } else {
            None
        }
    } else {
        match spec_child_value(s, i) {
            Some((ch, j)) => {
                if i < j <= s.len() {
                    let k = spec_ws(s, j);
                    if j <= k <= s.len() && k < s.len() {
                        if s[k] == 44 {
                            let m = spec_ws(s, k + 1);
                            if k + 1 <= m <= s.len() {
                                spec_children_items(s, m, acc.push(ch), false)
                            } else {
                                None
                            }
                        } else if s[k] == 93 {
                            Some((acc.push(ch), k + 1))
                        } else {
                            None
                        }
                    } else {
                        None
                    }
                } else {
                    None
                }
            },
            None => None,
        }
    }
}

pub fn parse_children_items(s: &[u8], i: usize, acc: Vec<KasaChildren>, allow_end: bool) -> (r:
    Option<(Vec<KasaChildren>, usize)>)
    requires
        i <= s@.len(),
    ensures
        match r {
            Some(v) => spec_children_items(s@, i as int, acc.deep_view(), allow_end) == Some(
                (v.0.deep_view(), v.1 as int),
            ) && i < v.1 <= s@.len(),
            None => spec_children_items(s@, i as int, acc.deep_view(), allow_end) is None,
        },
    decreases s@.len() - i,
{
    if i >= s.len() {
        return None;
    }
    if s[i] == 93 {
        if allow_end {
            return Some((acc, i + 1));
        } else {
            return None;
        }
    }
    match parse_child_value(s, i) {
        Some((ch, j)) => {
            let k = skip_ws(s, j);
            if k < s.len() && s[k] == 44 {
                let m = skip_ws(s, k + 1);
                let ghost ch_v = ch@;
                let mut acc2 = acc;
                acc2.push(ch);
                proof {
                    assert(acc2.deep_view() =~= acc.deep_view().push(ch_v));
                }
                parse_children_items(s, m, acc2, false)
            } else if k < s.len() && s[k] == 93 {
                let ghost ch_v = ch@;
                let mut acc2 = acc;
                acc2.push(ch);
                proof {
                    assert(acc2.deep_view() =~= acc.deep_view().push(ch_v));
                }
                Some((acc2, k + 1))
            } else {
                None
            }
        },
        None => None,
    }
}

/// A `children` array value at `i`.
pub open spec fn spec_children_value(s: Seq<u8>, i: int) -> Option<(Seq<KasaChildrenV>, int)> {
    if 0 <= i < s.len() && s[i] == 91 {
        let j = spec_ws(s, i + 1);
        if i + 1 <= j <= s.len() {
            spec_children_items(s, j, Seq::empty(), true)
        } else {
            None
        }
    } else {
        None
    }
}

pub fn parse_children_value(s: &[u8], i: usize) -> (r: Option<(Vec<KasaChildren>, usize)>)
    requires
        i <= s@.len(),
    ensures
        match r {
            Some(v) => spec_children_value(s@, i as int) == Some((v.0.deep_view(), v.1 as int))
                && i < v.1 <= s@.len(),
            None => spec_children_value(s@, i as int) is None,
        },
{
    if i < s.len() && s[i] == 91 {
        let j = skip_ws(s, i + 1);
        let acc: Vec<KasaChildren> = Vec::new();
        proof {
            assert(acc.deep_view() =~= Seq::<KasaChildrenV>::empty());
        }
        parse_children_items(s, j, acc, true)
    } else {
        None
    }
}

/// Every member that the schema requires has been seen.
pub open spec fn spec_sysinfo_required(seen: SysInfoSeen) -> bool {
    &&& seen.alias
    &&& seen.deviceId
    &&& seen.err_code
    &&& seen.feature
    &&& seen.hwId
    &&& seen.hw_ver
    &&& seen.latitude_i
    &&& seen.led_off
    &&& seen.longitude_i
    &&& seen.mac
    &&& seen.mic_type
    &&& seen.model
    &&& seen.oemId
    &&& seen.rssi
    &&& seen.status
    &&& seen.sw_ver
    &&& seen.updating
}

fn sysinfo_required(seen: SysInfoSeen) -> (r: bool)
    ensures
        r == spec_sysinfo_required(seen),
{
    seen.alias && seen.deviceId && seen.err_code && seen.feature && seen.hwId
        && seen.hw_ver && seen.latitude_i && seen.led_off && seen.longitude_i && seen.mac
        && seen.mic_type && seen.model && seen.oemId && seen.rssi && seen.status
        && seen.sw_ver && seen.updating
}

/// One member of a state-snapshot object, dispatched on its key.
pub open spec fn spec_sysinfo_step(
    s: Seq<u8>,
    b: int,
    key: Seq<u8>, acc: SysInfoV, seen: SysInfoSeen,
) -> Option<(SysInfoV, SysInfoSeen, int)> {
    if key == "alias".spec_bytes() {
        match spec_string_value(s, b) {
            Some((x, c)) => Some(
                (SysInfoV { alias: x, ..acc }, SysInfoSeen { alias: true, ..seen }, c),
            ),
            None => None,
        }
    } else if key == "child_num".spec_bytes() {
        match spec_usize_value(s, b) {
            Some((x, c)) => Some(
                (SysInfoV { child_num: x, ..acc }, seen, c),
            ),
            None => None,
        }
    } else if key == "children".spec_bytes() {
        match spec_children_value(s, b) {
            Some((x, c)) => Some(
                (SysInfoV { children: x, ..acc }, seen, c),
            ),
            None => None,
        }
    } else if key == "deviceId".spec_bytes() {
        match spec_string_value(s, b) {
            Some((x, c)) => Some(
                (SysInfoV { deviceId: x, ..acc }, SysInfoSeen { deviceId: true, ..seen }, c),
            ),
            None => None,
        }
    } else if key == "err_code".spec_bytes() {
        match spec_u32_value(s, b) {
            Some((x, c)) => Some(
                (SysInfoV { err_code: x, ..acc }, SysInfoSeen { err_code: true, ..seen }, c),
            ),
            None => None,
        }
    } else if key == "feature".spec_bytes() {
        match spec_string_value(s, b) {
            Some((x, c)) => Some(
                (SysInfoV { feature: x, ..acc }, SysInfoSeen { feature: true, ..seen }, c),
            ),
            None => None,
        }
    } else if key == "hwId".spec_bytes() {
        match spec_string_value(s, b) {
            Some((x, c)) => Some(
                (SysInfoV { hwId: x, ..acc }, SysInfoSeen { hwId: true, ..seen }, c),
            ),
            None => None,
        }
    } else if key == "hw_ver".spec_bytes() {
        match spec_string_value(s, b) {
            Some((x, c)) => Some(
                (SysInfoV { hw_ver: x, ..acc }, SysInfoSeen { hw_ver: true, ..seen }, c),
            ),
            None => None,
        }
    } else if key == "latitude_i".spec_bytes() {
        match spec_i32_value(s, b) {
            Some((x, c)) => Some(
                (SysInfoV { latitude_i: x, ..acc }, SysInfoSeen { latitude_i: true, ..seen }, c),
            ),
            None => None,
        }
    } else if key == "led_off".spec_bytes() {
        match spec_u8_value(s, b) {
            Some((x, c)) => Some(
                (SysInfoV { led_off: x, ..acc }, SysInfoSeen { led_off: true, ..seen }, c),
            ),
            None => None,
        }
    } else if key == "longitude_i".spec_bytes() {
        match spec_i32_value(s, b) {
            Some((x, c)) => Some(
                (SysInfoV { longitude_i: x, ..acc }, SysInfoSeen { longitude_i: true, ..seen }, c),
            ),
            None => None,
        }
    } else if key == "mac".spec_bytes() {
        match spec_string_value(s, b) {
            Some((x, c)) => Some(
                (SysInfoV { mac: x, ..acc }, SysInfoSeen { mac: true, ..seen }, c),
            ),
            None => None,
        }
    } else if key == "mic_type".spec_bytes() {
        match spec_string_value(s, b) {
            Some((x, c)) => Some(
                (SysInfoV { mic_type: x, ..acc }, SysInfoSeen { mic_type: true, ..seen }, c),
            ),
            None => None,
        }
    } else if key == "model".spec_bytes() {
        match spec_string_value(s, b) {
            Some((x, c)) => Some(
                (SysInfoV { model: x, ..acc }, SysInfoSeen { model: true, ..seen }, c),
            ),
            None => None,
        }
    } else if key == "oemId".spec_bytes() {
        match spec_string_value(s, b) {
            Some((x, c)) => Some(
                (SysInfoV { oemId: x, ..acc }, SysInfoSeen { oemId: true, ..seen }, c),
            ),
            None => None,
        }
    } else if key == "on_time".spec_bytes() {
        match spec_u32_value(s, b) {
            Some((x, c)) => Some(
                (SysInfoV { on_time: x, ..acc }, seen, c),
            ),
            None => None,
        }
    } else if key == "relay_state".spec_bytes() {
        match spec_u8_value(s, b) {
            Some((x, c)) => Some(
                (SysInfoV { relay_state: x, ..acc }, seen, c),
            ),
            None => None,
        }
    } else if key == "rssi".spec_bytes() {
        match spec_i32_value(s, b) {
            Some((x, c)) => Some(
                (SysInfoV { rssi: x, ..acc }, SysInfoSeen { rssi: true, ..seen }, c),
            ),
            None => None,
        }
    } else if key == "status".spec_bytes() {
        match spec_string_value(s, b) {
            Some((x, c)) => Some(
                (SysInfoV { status: x, ..acc }, SysInfoSeen { status: true, ..seen }, c),
            ),
            None => None,
        }
    } else if key == "sw_ver".spec_bytes() {
        match spec_string_value(s, b) {
            Some((x, c)) => Some(
                (SysInfoV { sw_ver: x, ..acc }, SysInfoSeen { sw_ver: true, ..seen }, c),
            ),
            None => None,
        }
    } else if key == "updating".spec_bytes() {
        match spec_u32_value(s, b) {
            Some((x, c)) => Some(
                (SysInfoV { updating: x, ..acc }, SysInfoSeen { updating: true, ..seen }, c),
            ),
            None => None,
        }
    } else {
        match spec_skip_value(s, b) {
            Some(c) => Some((acc, seen, c)),
            None => None,
        }
    }
}

#[verifier::rlimit(100)]
pub fn parse_sysinfo_step(
    s: &[u8],
    b: usize,
    key: &Vec<u8>, acc: SysInfo, seen: SysInfoSeen,
) -> (r: Option<(SysInfo, SysInfoSeen, usize)>)
    requires
        b <= s@.len(),
    ensures
        match r {
            Some(v) => spec_sysinfo_step(s@, b as int, key@, acc@, seen) == Some(
                (v.0@, v.1, v.2 as int),
            ) && b < v.2 <= s@.len(),
            None => spec_sysinfo_step(s@, b as int, key@, acc@, seen) is None,
        },
{
    if bytes_eq(key.as_slice(), "alias".as_bytes()) {
        match parse_string_value(s, b) {
            Some((x, c)) => Some(
                (SysInfo { alias: x, ..acc }, SysInfoSeen { alias: true, ..seen }, c),
            ),
            None => None,
        }
    } else if bytes_eq(key.as_slice(), "child_num".as_bytes()) {
        match parse_usize_value(s, b) {
            Some((x, c)) => Some(
                (SysInfo { child_num: x, ..acc }, seen, c),
            ),
            None => None,
        }
    } else if bytes_eq(key.as_slice(), "children".as_bytes()) {
        match parse_children_value(s, b) {
            Some((x, c)) => Some(
                (SysInfo { children: x, ..acc }, seen, c),
            ),
            None => None,
        }
    } else if bytes_eq(key.as_slice(), "deviceId".as_bytes()) {
        match parse_string_value(s, b) {
            Some((x, c)) => Some(
                (SysInfo { deviceId: x, ..acc }, SysInfoSeen { deviceId: true, ..seen }, c),
            ),
            None => None,
        }
    } else if bytes_eq(key.as_slice(), "err_code".as_bytes()) {
        match parse_u32_value(s, b) {
            Some((x, c)) => Some(
                (SysInfo { err_code: x, ..acc }, SysInfoSeen { err_code: true, ..seen }, c),
            ),
            None => None,
        }
    } else if bytes_eq(key.as_slice(), "feature".as_bytes()) {
        match parse_string_value(s, b) {
            Some((x, c)) => Some(
                (SysInfo { feature: x, ..acc }, SysInfoSeen { feature: true, ..seen }, c),
            ),
            None => None,
        }
    } else if bytes_eq(key.as_slice(), "hwId".as_bytes()) {
        match parse_string_value(s, b) {
            Some((x, c)) => Some(
                (SysInfo { hwId: x, ..acc }, SysInfoSeen { hwId: true, ..seen }, c),
            ),
            None => None,
        }
    } else if bytes_eq(key.as_slice(), "hw_ver".as_bytes()) {
        match parse_string_value(s, b) {
            Some((x, c)) => Some(
                (SysInfo { hw_ver: x, ..acc }, SysInfoSeen { hw_ver: true, ..seen }, c),
            ),
            None => None,
        }
    } else if bytes_eq(key.as_slice(), "latitude_i".as_bytes()) {
        match parse_i32_value(s, b) {
            Some((x, c)) => Some(
                (SysInfo { latitude_i: x, ..acc }, SysInfoSeen { latitude_i: true, ..seen }, c),
            ),
            None => None,
        }
    } else if bytes_eq(key.as_slice(), "led_off".as_bytes()) {
        match parse_u8_value(s, b) {
            Some((x, c)) => Some(
                (SysInfo { led_off: x, ..acc }, SysInfoSeen { led_off: true, ..seen }, c),
            ),
            None => None,
        }
    } else if bytes_eq(key.as_slice(), "longitude_i".as_bytes()) {
        match parse_i32_value(s, b) {
            Some((x, c)) => Some(
                (SysInfo { longitude_i: x, ..acc }, SysInfoSeen { longitude_i: true, ..seen }, c),
            ),
            None => None,
        }
    } else if bytes_eq(key.as_slice(), "mac".as_bytes()) {
        match parse_string_value(s, b) {
            Some((x, c)) => Some(
                (SysInfo { mac: x, ..acc }, SysInfoSeen { mac: true, ..seen }, c),
            ),
            None => None,
        }
    } else if bytes_eq(key.as_slice(), "mic_type".as_bytes()) {
        match parse_string_value(s, b) {
            Some((x, c)) => Some(
                (SysInfo { mic_type: x, ..acc }, SysInfoSeen { mic_type: true, ..seen }, c),
            ),
            None => None,
        }
    } else if bytes_eq(key.as_slice(), "model".as_bytes()) {
        match parse_string_value(s, b) {
            Some((x, c)) => Some(
                (SysInfo { model: x, ..acc }, SysInfoSeen { model: true, ..seen }, c),
            ),
            None => None,
        }
    } else if bytes_eq(key.as_slice(), "oemId".as_bytes()) {
        match parse_string_value(s, b) {
            Some((x, c)) => Some(
                (SysInfo { oemId: x, ..acc }, SysInfoSeen { oemId: true, ..seen }, c),
            ),
            None => None,
        }
    } else if bytes_eq(key.as_slice(), "on_time".as_bytes()) {
        match parse_u32_value(s, b) {
            Some((x, c)) => Some(
                (SysInfo { on_time: x, ..acc }, seen, c),
            ),
            None => None,
        }
    } else if bytes_eq(key.as_slice(), "relay_state".as_bytes()) {
        match parse_u8_value(s, b) {
            Some((x, c)) => Some(
                (SysInfo { relay_state: x, ..acc }, seen, c),
            ),
            None => None,
        }
    } else if bytes_eq(key.as_slice(), "rssi".as_bytes()) {
        match parse_i32_value(s, b) {
            Some((x, c)) => Some(
                (SysInfo { rssi: x, ..acc }, SysInfoSeen { rssi: true, ..seen }, c),
            ),
            None => None,
        }
    } else if bytes_eq(key.as_slice(), "status".as_bytes()) {
        match parse_string_value(s, b) {
            Some((x, c)) => Some(
                (SysInfo { status: x, ..acc }, SysInfoSeen { status: true, ..seen }, c),
            ),
            None => None,
        }
    } else if bytes_eq(key.as_slice(), "sw_ver".as_bytes()) {
        match parse_string_value(s, b) {
            Some((x, c)) => Some(
                (SysInfo { sw_ver: x, ..acc }, SysInfoSeen { sw_ver: true, ..seen }, c),
            ),
            None => None,
        }
    } else if bytes_eq(key.as_slice(), "updating".as_bytes()) {
        match parse_u32_value(s, b) {
            Some((x, c)) => Some(
                (SysInfo { updating: x, ..acc }, SysInfoSeen { updating: true, ..seen }, c),
            ),
            None => None,
        }
    } else {
        match skip_value(s, b) {
            Some(c) => Some((acc, seen, c)),
            None => None,
        }
    }
}

/// The members of a state-snapshot object; every member without a
/// protocol default is required.
pub open spec fn spec_sysinfo_members(
    s: Seq<u8>,
    i: int, acc: SysInfoV, seen: SysInfoSeen,
    allow_end: bool,
) -> Option<(SysInfoV, int)>
    decreases s.len() - i,
{
    if i < 0 || i >= s.len() {
        None
    } else if s[i] == 125 {
        if allow_end && spec_sysinfo_required(seen) {
            Some((acc, i + 1))
        } else {
            None
        }
    } else if s[i] != 34 {
        None
    } else {
        match spec_string_body(s, i + 1) {
            Some((key, j)) => {
                if i < j <= s.len() {
                    let a = spec_ws(s, j);
                    if j <= a <= s.len() && a < s.len() && s[a] == 58 {
                        let b = spec_ws(s, a + 1);
                        if a + 1 <= b <= s.len() {
                            match spec_sysinfo_step(s, b, key, acc, seen) {
                                Some((acc2, seen2, c)) => {
                                    if b <= c <= s.len() {
                                        let e = spec_ws(s, c);
                                        if c <= e <= s.len() && e < s.len() {
                                            if s[e] == 44 {
                                                let m = spec_ws(s, e + 1);
                                                if e + 1 <= m <= s.len() {
                                                    spec_sysinfo_members(s, m, acc2, seen2, false)
                                                } else {
                                                    None
                                                }
                                            } else if s[e] == 125 {
                                                if spec_sysinfo_required(seen2) {
                                                    Some((acc2, e + 1))
                                                } else {
                                                    None
                                                }
                                            } else {
                                                None
                                            }
                                        } else {
                                            None
                                        }
                                    } else {
                                        None
                                    }
                                },
                                None => None,
                            }
                        } else {
                            None
                        }
                    } else {
                        None
                    }
                } else {
                    None
                }
            },
            None => None,
        }
    }
}

pub fn parse_sysinfo_members(
    s: &[u8],
    i: usize, acc: SysInfo, seen: SysInfoSeen,
    allow_end: bool,
) -> (r: Option<(SysInfo, usize)>)
    requires
        i <= s@.len(),
    ensures
        match r {
            Some(v) => spec_sysinfo_members(s@, i as int, acc@, seen, allow_end) == Some((v.0@, v.1 as int)) && i
                < v.1 <= s@.len(),
            None => spec_sysinfo_members(s@, i as int, acc@, seen, allow_end) is None,
        },
    decreases s@.len() - i,
{
    if i >= s.len() {
        return None;
    }
    if s[i] == 125 {
        if allow_end && sysinfo_required(seen) {
            return Some((acc, i + 1));
        } else {
            return None;
        }
    }
    if s[i] != 34 {
        return None;
    }
    match parse_string_body(s, i + 1) {
        Some((key, j)) => {
            let a = skip_ws(s, j);
            if !(a < s.len() && s[a] == 58) {
                return None;
            }
            let b = skip_ws(s, a + 1);
            match parse_sysinfo_step(s, b, &key, acc, seen) {
                Some((acc2, seen2, c)) => {
                    let e = skip_ws(s, c);
                    if e < s.len() && s[e] == 44 {
                        let m = skip_ws(s, e + 1);
                        parse_sysinfo_members(s, m, acc2, seen2, false)
                    } else if e < s.len() && s[e] == 125 {
                        if sysinfo_required(seen2) {
                            Some((acc2, e + 1))
                        } else {
                            None
                        }
                    } else {
                        None
                    }
                },
                None => None,
            }
        },
        None => None,
    }
}

/// A state-snapshot object value at `i`.
pub open spec fn spec_sysinfo_value(s: Seq<u8>, i: int) -> Option<(SysInfoV, int)> {
    if 0 <= i < s.len() && s[i] == 123 {
        let j = spec_ws(s, i + 1);
        if i + 1 <= j <= s.len() {
            spec_sysinfo_members(s, j, spec_sysinfo_init(), spec_sysinfo_seen_init(), true)
        } else {
            None
        }
    } else {
        None
    }
}

pub fn parse_sysinfo_value(s: &[u8], i: usize) -> (r: Option<(SysInfo, usize)>)
    requires
        i <= s@.len(),
    ensures
        match r {
            Some(v) => spec_sysinfo_value(s@, i as int) == Some((v.0@, v.1 as int)) && i < v.1
                <= s@.len(),
            None => spec_sysinfo_value(s@, i as int) is None,
        },
{
    if i < s.len() && s[i] == 123 {
        let j = skip_ws(s, i + 1);
        parse_sysinfo_members(s, j, sysinfo_init(), sysinfo_seen_init(), true)
    } else {
        None
    }
}

/// One member of a status-module object, dispatched on its key.
pub open spec fn spec_system_step(
    s: Seq<u8>,
    b: int,
    key: Seq<u8>, acc: SystemV,
) -> Option<(SystemV, int)> {
    if key == "get_sysinfo".spec_bytes() {
        if 0 <= b < s.len() && s[b] == 110 {
            if spec_lit_at(s, b, lit_null()) {
                Some((SystemV { get_sysinfo: None }, b + 4))
            } else {
                None
            }
        } else {
            match spec_sysinfo_value(s, b) {
                Some((x, c)) => Some((SystemV { get_sysinfo: Some(x) }, c)),
                None => None,
            }
        }
    } else {
        match spec_skip_value(s, b) {
            Some(c) => Some((acc, c)),
            None => None,
        }
    }
}

pub fn parse_system_step(
    s: &[u8],
    b: usize,
    key: &Vec<u8>, acc: System,
) -> (r: Option<(System, usize)>)
    requires
        b <= s@.len(),
    ensures
        match r {
            Some(v) => spec_system_step(s@, b as int, key@, acc@) == Some(
                (v.0@, v.1 as int),
            ) && b < v.1 <= s@.len(),
            None => spec_system_step(s@, b as int, key@, acc@) is None,
        },
{
    if bytes_eq(key.as_slice(), "get_sysinfo".as_bytes()) {
        if b < s.len() && s[b] == 110 {
            let lit = lit_null_vec();
            if match_lit(s, b, lit.as_slice()) {
                Some((System { get_sysinfo: None }, b + 4))
            } else {
                None
            }
        } else {
            match parse_sysinfo_value(s, b) {
                Some((x, c)) => Some((System { get_sysinfo: Some(x) }, c)),
                None => None,
            }
        }
    } else {
        match skip_value(s, b) {
            Some(c) => Some((acc, c)),
            None => None,
        }
    }
}

/// The members of a status-module object; the state snapshot is optional
/// and may be the literal `null`.
pub open spec fn spec_system_members(
    s: Seq<u8>,
    i: int, acc: SystemV,
    allow_end: bool,
) -> Option<(SystemV, int)>
    decreases s.len() - i,
{
    if i < 0 || i >= s.len() {
        None
    } else if s[i] == 125 {
        if allow_end && true {
            Some((acc, i + 1))
        } else {
            None
        }
    } else if s[i] != 34 {
        None
    } else {
        match spec_string_body(s, i + 1) {
            Some((key, j)) => {
                if i < j <= s.len() {
                    let a = spec_ws(s, j);
                    if j <= a <= s.len() && a < s.len() && s[a] == 58 {
                        let b = spec_ws(s, a + 1);
                        if a + 1 <= b <= s.len() {
                            match spec_system_step(s, b, key, acc) {
                                Some((acc2, c)) => {
                                    if b <= c <= s.len() {
                                        let e = spec_ws(s, c);
                                        if c <= e <= s.len() && e < s.len() {
                                            if s[e] == 44 {
                                                let m = spec_ws(s, e + 1);
                                                if e + 1 <= m <= s.len() {
                                                    spec_system_members(s, m, acc2, false)
                                                } else {
                                                    None
                                                }
                                            } else if s[e] == 125 {
                                                if true {
                                                    Some((acc2, e + 1))
                                                } else {
                                                    None
                                                }
                                            } else {
                                                None
                                            }
                                        } else {
                                            None
                                        }
                                    } else {
                                        None
                                    }
                                },
                                None => None,
                            }
                        } else {
                            None
                        }
                    } else {
                        None
                    }
                } else {
                    None
                }
            },
            None => None,
        }
    }
}

pub fn parse_system_members(
    s: &[u8],
    i: usize, acc: System,
    allow_end: bool,
) -> (r: Option<(System, usize)>)
    requires
        i <= s@.len(),
    ensures
        match r {
            Some(v) => spec_system_members(s@, i as int, acc@, allow_end) == Some((v.0@, v.1 as int)) && i
                < v.1 <= s@.len(),
            None => spec_system_members(s@, i as int, acc@, allow_end) is None,
        },
    decreases s@.len() - i,
{
    if i >= s.len() {
        return None;
    }
    if s[i] == 125 {
        if allow_end && true {
            return Some((acc, i + 1));
        } else {
            return None;
        }
    }
    if s[i] != 34 {
        return None;
    }
    match parse_string_body(s, i + 1) {
        Some((key, j)) => {
            let a = skip_ws(s, j);
            if !(a < s.len() && s[a] == 58) {
                return None;
            }
            let b = skip_ws(s, a + 1);
            match parse_system_step(s, b, &key, acc) {
                Some((acc2, c)) => {
                    let e = skip_ws(s, c);
                    if e < s.len() && s[e] == 44 {
                        let m = skip_ws(s, e + 1);
                        parse_system_members(s, m, acc2, false)
                    } else if e < s.len() && s[e] == 125 {
                        if true {
                            Some((acc2, e + 1))
                        } else {
                            None
                        }
                    } else {
                        None
                    }
                },
                None => None,
            }
        },
        None => None,
    }
}

/// A status-module object value at `i`.
pub open spec fn spec_system_value(s: Seq<u8>, i: int) -> Option<(SystemV, int)> {
    if 0 <= i < s.len() && s[i] == 123 {
        let j = spec_ws(s, i + 1);
        if i + 1 <= j <= s.len() {
            spec_system_members(s, j, SystemV { get_sysinfo: None }, true)
        } else {
            None
        }
    } else {
        None
    }
}

pub fn parse_system_value(s: &[u8], i: usize) -> (r: Option<(System, usize)>)
    requires
        i <= s@.len(),
    ensures
        match r {
            Some(v) => spec_system_value(s@, i as int) == Some((v.0@, v.1 as int)) && i < v.1
                <= s@.len(),
            None => spec_system_value(s@, i as int) is None,
        },
{
    if i < s.len() && s[i] == 123 {
        let j = skip_ws(s, i + 1);
        parse_system_members(s, j, System { get_sysinfo: None }, true)
    } else {
        None
    }
}

/// One member of a telemetry-module object, dispatched on its key.
pub open spec fn spec_emeter_step(
    s: Seq<u8>,
    b: int,
    key: Seq<u8>, acc: EmeterV,
) -> Option<(EmeterV, int)> {
    if key == "get_realtime".spec_bytes() {
        if 0 <= b < s.len() && s[b] == 110 {
            if spec_lit_at(s, b, lit_null()) {
                Some((EmeterV { get_realtime: None }, b + 4))
            } else {
                None
            }
        } else {
            match spec_realtime_value(s, b) {
                Some((x, c)) => Some((EmeterV { get_realtime: Some(x) }, c)),
                None => None,
            }
        }
    } else {
        match spec_skip_value(s, b) {
            Some(c) => Some((acc, c)),
            None => None,
        }
    }
}

pub fn parse_emeter_step(
    s: &[u8],
    b: usize,
    key: &Vec<u8>, acc: Emeter,
) -> (r: Option<(Emeter, usize)>)
    requires
        b <= s@.len(),
    ensures
        match r {
            Some(v) => spec_emeter_step(s@, b as int, key@, acc@) == Some(
                (v.0@, v.1 as int),
            ) && b < v.1 <= s@.len(),
            None => spec_emeter_step(s@, b as int, key@, acc@) is None,
        },
{
    if bytes_eq(key.as_slice(), "get_realtime".as_bytes()) {
        if b < s.len() && s[b] == 110 {
            let lit = lit_null_vec();
            if match_lit(s, b, lit.as_slice()) {
                Some((Emeter { get_realtime: None }, b + 4))
            } else {
                None
            }
        } else {
            match parse_realtime_value(s, b) {
                Some((x, c)) => Some((Emeter { get_realtime: Some(x) }, c)),
                None => None,
            }
        }
    } else {
        match skip_value(s, b) {
            Some(c) => Some((acc, c)),
            None => None,
        }
    }
}

/// The members of a telemetry-module object; the metering snapshot is
/// optional and may be the literal `null`.
pub open spec fn spec_emeter_members(
    s: Seq<u8>,
    i: int, acc: EmeterV,
    allow_end: bool,
) -> Option<(EmeterV, int)>
    decreases s.len() - i,
{
    if i < 0 || i >= s.len() {
        None
    } else if s[i] == 125 {
        if allow_end && true {
            Some((acc, i + 1))
        } else {
            None
        }
    } else if s[i] != 34 {
        None
    } else {
        match spec_string_body(s, i + 1) {
            Some((key, j)) => {
                if i < j <= s.len() {
                    let a = spec_ws(s, j);
                    if j <= a <= s.len() && a < s.len() && s[a] == 58 {
                        let b = spec_ws(s, a + 1);
                        if a + 1 <= b <= s.len() {
                            match spec_emeter_step(s, b, key, acc) {
                                Some((acc2, c)) => {
                                    if b <= c <= s.len() {
                                        let e = spec_ws(s, c);
                                        if c <= e <= s.len() && e < s.len() {
                                            if s[e] == 44 {
                                                let m = spec_ws(s, e + 1);
                                                if e + 1 <= m <= s.len() {
                                                    spec_emeter_members(s, m, acc2, false)
                                                } else {
                                                    None
                                                }
                                            } else if s[e] == 125 {
                                                if true {
                                                    Some((acc2, e + 1))
                                                } else {
                                                    None
                                                }
                                            } else {
                                                None
                                            }
                                        } else {
                                            None
                                        }
                                    } else {
                                        None
                                    }
                                },
                                None => None,
                            }
                        } else {
                            None
                        }
                    } else {
                        None
                    }
                } else {
                    None
                }
            },
            None => None,
        }
    }
}

pub fn parse_emeter_members(
    s: &[u8],
    i: usize, acc: Emeter,
    allow_end: bool,
) -> (r: Option<(Emeter, usize)>)
    requires
        i <= s@.len(),
    ensures
        match r {
            Some(v) => spec_emeter_members(s@, i as int, acc@, allow_end) == Some((v.0@, v.1 as int)) && i
                < v.1 <= s@.len(),
            None => spec_emeter_members(s@, i as int, acc@, allow_end) is None,
        },
    decreases s@.len() - i,
{
    if i >= s.len() {
        return None;
    }
    if s[i] == 125 {
        if allow_end && true {
            return Some((acc, i + 1));
        } else {
            return None;
        }
    }
    if s[i] != 34 {
        return None;
    }
    match parse_string_body(s, i + 1) {
        Some((key, j)) => {
            let a = skip_ws(s, j);
            if !(a < s.len() && s[a] == 58) {
                return None;
            }
            let b = skip_ws(s, a + 1);
            match parse_emeter_step(s, b, &key, acc) {
                Some((acc2, c)) => {
                    let e = skip_ws(s, c);
                    if e < s.len() && s[e] == 44 {
                        let m = skip_ws(s, e + 1);
                        parse_emeter_members(s, m, acc2, false)
                    } else if e < s.len() && s[e] == 125 {
                        if true {
                            Some((acc2, e + 1))
                        } else {
                            None
                        }
                    } else {
                        None
                    }
                },
                None => None,
            }
        },
        None => None,
    }
}

/// A telemetry-module object value at `i`.
pub open spec fn spec_emeter_value(s: Seq<u8>, i: int) -> Option<(EmeterV, int)> {
    if 0 <= i < s.len() && s[i] == 123 {
        let j = spec_ws(s, i + 1);
        if i + 1 <= j <= s.len() {
            spec_emeter_members(s, j, EmeterV { get_realtime: None }, true)
        } else {
            None
        }
    } else {
        None
    }
}

pub fn parse_emeter_value(s: &[u8], i: usize) -> (r: Option<(Emeter, usize)>)
    requires
        i <= s@.len(),
    ensures
        match r {
            Some(v) => spec_emeter_value(s@, i as int) == Some((v.0@, v.1 as int)) && i < v.1
                <= s@.len(),
            None => spec_emeter_value(s@, i as int) is None,
        },
{
    if i < s.len() && s[i] == 123 {
        let j = skip_ws(s, i + 1);
        parse_emeter_members(s, j, Emeter { get_realtime: None }, true)
    } else {
        None
    }
}

/// One member of a reply document, dispatched on its key.
pub open spec fn spec_resp_step(
    s: Seq<u8>,
    b: int,
    key: Seq<u8>, acc: KasaRespV,
) -> Option<(KasaRespV, int)> {
    if key == "system".spec_bytes() {
        if 0 <= b < s.len() && s[b] == 110 {
            if spec_lit_at(s, b, lit_null()) {
                Some((KasaRespV { system: None, ..acc }, b + 4))
            } else {
                None
            }
        } else {
            match spec_system_value(s, b) {
                Some((x, c)) => Some((KasaRespV { system: Some(x), ..acc }, c)),
                None => None,
            }
        }
    } else if key == "emeter".spec_bytes() {
        if 0 <= b < s.len() && s[b] == 110 {
            if spec_lit_at(s, b, lit_null()) {
                Some((KasaRespV { emeter: None, ..acc }, b + 4))
            } else {
                None
            }
        } else {
            match spec_emeter_value(s, b) {
                Some((x, c)) => Some((KasaRespV { emeter: Some(x), ..acc }, c)),
                None => None,
            }
        }
    } else {
        match spec_skip_value(s, b) {
            Some(c) => Some((acc, c)),
            None => None,
        }
    }
}

pub fn parse_resp_step(
    s: &[u8],
    b: usize,
    key: &Vec<u8>, acc: KasaResp,
) -> (r: Option<(KasaResp, usize)>)
    requires
        b <= s@.len(),
    ensures
        match r {
            Some(v) => spec_resp_step(s@, b as int, key@, acc@) == Some(
                (v.0@, v.1 as int),
            ) && b < v.1 <= s@.len(),
            None => spec_resp_step(s@, b as int, key@, acc@) is None,
        },
{
    if bytes_eq(key.as_slice(), "system".as_bytes()) {
        if b < s.len() && s[b] == 110 {
            let lit = lit_null_vec();
            if match_lit(s, b, lit.as_slice()) {
                Some((KasaResp { system: None, ..acc }, b + 4))
            } else {
                None
            }
        } else {
            match parse_system_value(s, b) {
                Some((x, c)) => Some((KasaResp { system: Some(x), ..acc }, c)),
                None => None,
            }
        }
    } else if bytes_eq(key.as_slice(), "emeter".as_bytes()) {
        if b < s.len() && s[b] == 110 {
            let lit = lit_null_vec();
            if match_lit(s, b, lit.as_slice()) {
                Some((KasaResp { emeter: None, ..acc }, b + 4))
            } else {
                None
            }
        } else {
            match parse_emeter_value(s, b) {
                Some((x, c)) => Some((KasaResp { emeter: Some(x), ..acc }, c)),
                None => None,
            }
        }
    } else {
        match skip_value(s, b) {
            Some(c) => Some((acc, c)),
            None => None,
        }
    }
}

/// The members of a reply document; both module slots are optional.
pub open spec fn spec_resp_members(
    s: Seq<u8>,
    i: int, acc: KasaRespV,
    allow_end: bool,
) -> Option<(KasaRespV, int)>
    decreases s.len() - i,
{
    if i < 0 || i >= s.len() {
        None
    } else if s[i] == 125 {
        if allow_end && true {
            Some((acc, i + 1))
        } else {
            None
        }
    } else if s[i] != 34 {
        None
    } else {
        match spec_string_body(s, i + 1) {
            Some((key, j)) => {
                if i < j <= s.len() {
                    let a = spec_ws(s, j);
                    if j <= a <= s.len() && a < s.len() && s[a] == 58 {
                        let b = spec_ws(s, a + 1);
                        if a + 1 <= b <= s.len() {
                            match spec_resp_step(s, b, key, acc) {
                                Some((acc2, c)) => {
                                    if b <= c <= s.len() {
                                        let e = spec_ws(s, c);
                                        if c <= e <= s.len() && e < s.len() {
                                            if s[e] == 44 {
                                                let m = spec_ws(s, e + 1);
                                                if e + 1 <= m <= s.len() {
                                                    spec_resp_members(s, m, acc2, false)
                                                } else {
                                                    None
                                                }
                                            } else if s[e] == 125 {
                                                if true {
                                                    Some((acc2, e + 1))
                                                } else {
                                                    None
                                                }
                                            } else {
                                                None
                                            }
                                        } else {
                                            None
                                        }
                                    } else {
                                        None
                                    }
                                },
                                None => None,
                            }
                        } else {
                            None
                        }
                    } else {
                        None
                    }
                } else {
                    None
                }
            },
            None => None,
        }
    }
}

pub fn parse_resp_members(
    s: &[u8],
    i: usize, acc: KasaResp,
    allow_end: bool,
) -> (r: Option<(KasaResp, usize)>)
    requires
        i <= s@.len(),
    ensures
        match r {
            Some(v) => spec_resp_members(s@, i as int, acc@, allow_end) == Some((v.0@, v.1 as int)) && i
                < v.1 <= s@.len(),
            None => spec_resp_members(s@, i as int, acc@, allow_end) is None,
        },
    decreases s@.len() - i,
{
    if i >= s.len() {
        return None;
    }
    if s[i] == 125 {
        if allow_end && true {
            return Some((acc, i + 1));
        } else {
            return None;
        }
    }
    if s[i] != 34 {
        return None;
    }
    match parse_string_body(s, i + 1) {
        Some((key, j)) => {
            let a = skip_ws(s, j);
            if !(a < s.len() && s[a] == 58) {
                return None;
            }
            let b = skip_ws(s, a + 1);
            match parse_resp_step(s, b, &key, acc) {
                Some((acc2, c)) => {
                    let e = skip_ws(s, c);
                    if e < s.len() && s[e] == 44 {
                        let m = skip_ws(s, e + 1);
                        parse_resp_members(s, m, acc2, false)
                    } else if e < s.len() && s[e] == 125 {
                        if true {
                            Some((acc2, e + 1))
                        } else {
                            None
                        }
                    } else {
                        None
                    }
                },
                None => None,
            }
        },
        None => None,
    }
}

/// A whole reply document: optional whitespace, one object of the reply
/// shape, optional whitespace, end of input.
pub open spec fn spec_parse_resp(s: Seq<u8>) -> Option<KasaRespV> {
    let i = spec_ws(s, 0);
    if 0 <= i < s.len() && s[i] == 123 {
        let j = spec_ws(s, i + 1);
        if i + 1 <= j <= s.len() {
            match spec_resp_members(s, j, KasaRespV { system: None, emeter: None }, true) {
                Some((v, k)) => {
                    if 0 <= k <= s.len() {
                        let e = spec_ws(s, k);
                        if e == s.len() {
                            Some(v)
                        } else {
                            None
                        }
                    } else {
                        None
                    }
                },
                None => None,
            }
        } else {
            None
        }
    } else {
        None
    }
}

pub fn parse_resp(s: &[u8]) -> (r: Option<KasaResp>)
    ensures
        match r {
            Some(v) => spec_parse_resp(s@) == Some(v@),
            None => spec_parse_resp(s@) is None,
        },
{
    let i = skip_ws(s, 0);
    if !(i < s.len() && s[i] == 123) {
        return None;
    }
    let j = skip_ws(s, i + 1);
    match parse_resp_members(s, j, KasaResp { system: None, emeter: None }, true) {
        Some((v, k)) => {
            let e = skip_ws(s, k);
            if e == s.len() {
                Some(v)
            } else {
                None
            }
        },
        None => None,
    }
}

/// One member of a set-action result object, dispatched on its key.
pub open spec fn spec_set_action_step(
    s: Seq<u8>,
    b: int,
    key: Seq<u8>, acc: Option<i64>,
) -> Option<(Option<i64>, int)> {
    if key == "err_code".spec_bytes() {
        match spec_number(s, b) {
            Some((x, c)) => Some((Some(x), c)),
            None => None,
        }
    } else {
        match spec_skip_value(s, b) {
            Some(c) => Some((acc, c)),
            None => None,
        }
    }
}

pub fn parse_set_action_step(
    s: &[u8],
    b: usize,
    key: &Vec<u8>, acc: Option<i64>,
) -> (r: Option<(Option<i64>, usize)>)
    requires
        b <= s@.len(),
    ensures
        match r {
            Some(v) => spec_set_action_step(s@, b as int, key@, acc) == Some(
                (v.0, v.1 as int),
            ) && b < v.1 <= s@.len(),
            None => spec_set_action_step(s@, b as int, key@, acc) is None,
        },
{
    if bytes_eq(key.as_slice(), "err_code".as_bytes()) {
        match parse_number(s, b) {
            Some((x, c)) => Some((Some(x), c)),
            None => None,
        }
    } else {
        match skip_value(s, b) {
            Some(c) => Some((acc, c)),
            None => None,
        }
    }
}

/// The members of a set-action result object: the value of its last
/// `err_code` member, when one is present.
pub open spec fn spec_set_action_members(
    s: Seq<u8>,
    i: int, acc: Option<i64>,
    allow_end: bool,
) -> Option<(Option<i64>, int)>
    decreases s.len() - i,
{
    if i < 0 || i >= s.len() {
        None
    } else if s[i] == 125 {
        if allow_end && true {
            Some((acc, i + 1))
        } else {
            None
        }
    } else if s[i] != 34 {
        None
    } else {
        match spec_string_body(s, i + 1) {
            Some((key, j)) => {
                if i < j <= s.len() {
                    let a = spec_ws(s, j);
                    if j <= a <= s.len() && a < s.len() && s[a] == 58 {
                        let b = spec_ws(s, a + 1);
                        if a + 1 <= b <= s.len() {
                            match spec_set_action_step(s, b, key, acc) {
                                Some((acc2, c)) => {
                                    if b <= c <= s.len() {
                                        let e = spec_ws(s, c);
                                        if c <= e <= s.len() && e < s.len() {
                                            if s[e] == 44 {
                                                let m = spec_ws(s, e + 1);
                                                if e + 1 <= m <= s.len() {
                                                    spec_set_action_members(s, m, acc2, false)
                                                } else {
                                                    None
                                                }
                                            } else if s[e] == 125 {
                                                if true {
                                                    Some((acc2, e + 1))
                                                } else {
                                                    None
                                                }
                                            } else {
                                                None
                                            }
                                        } else {
                                            None
                                        }
                                    } else {
                                        None
                                    }
                                },
                                None => None,
                            }
                        } else {
                            None
                        }
                    } else {
                        None
                    }
                } else {
                    None
                }
            },
            None => None,
        }
    }
}

pub fn parse_set_action_members(
    s: &[u8],
    i: usize, acc: Option<i64>,
    allow_end: bool,
) -> (r: Option<(Option<i64>, usize)>)
    requires
        i <= s@.len(),
    ensures
        match r {
            Some(v) => spec_set_action_members(s@, i as int, acc, allow_end) == Some((v.0, v.1 as int)) && i
                < v.1 <= s@.len(),
            None => spec_set_action_members(s@, i as int, acc, allow_end) is None,
        },
    decreases s@.len() - i,
{
    if i >= s.len() {
        return None;
    }
    if s[i] == 125 {
        if allow_end && true {
            return Some((acc, i + 1));
        } else {
            return None;
        }
    }
    if s[i] != 34 {
        return None;
    }
    match parse_string_body(s, i + 1) {
        Some((key, j)) => {
            let a = skip_ws(s, j);
            if !(a < s.len() && s[a] == 58) {
                return None;
            }
            let b = skip_ws(s, a + 1);
            match parse_set_action_step(s, b, &key, acc) {
                Some((acc2, c)) => {
                    let e = skip_ws(s, c);
                    if e < s.len() && s[e] == 44 {
                        let m = skip_ws(s, e + 1);
                        parse_set_action_members(s, m, acc2, false)
                    } else if e < s.len() && s[e] == 125 {
                        if true {
                            Some((acc2, e + 1))
                        } else {
                            None
                        }
                    } else {
                        None
                    }
                },
                None => None,
            }
        },
        None => None,
    }
}

/// A set-action result object value at `i`.
pub open spec fn spec_set_action_value(s: Seq<u8>, i: int) -> Option<(Option<i64>, int)> {
    if 0 <= i < s.len() && s[i] == 123 {
        let j = spec_ws(s, i + 1);
        if i + 1 <= j <= s.len() {
            spec_set_action_members(s, j, None, true)
        } else {
            None
        }
    } else {
        None
    }
}

pub fn parse_set_action_value(s: &[u8], i: usize) -> (r: Option<(Option<i64>, usize)>)
    requires
        i <= s@.len(),
    ensures
        match r {
            Some(v) => spec_set_action_value(s@, i as int) == Some((v.0, v.1 as int)) && i < v.1
                <= s@.len(),
            None => spec_set_action_value(s@, i as int) is None,
        },
{
    if i < s.len() && s[i] == 123 {
        let j = skip_ws(s, i + 1);
        parse_set_action_members(s, j, None, true)
    } else {
        None
    }
}

/// One member of the status module of a set reply, dispatched on its key.
pub open spec fn spec_set_system_step(
    s: Seq<u8>,
    b: int,
    key: Seq<u8>, action: Seq<u8>, acc: Option<i64>,
) -> Option<(Option<i64>, int)> {
    if key == action {
        match spec_set_action_value(s, b) {
            Some((x, c)) => Some((x, c)),
            None => None,
        }
    } else {
        match spec_skip_value(s, b) {
            Some(c) => Some((acc, c)),
            None => None,
        }
    }
}

pub fn parse_set_system_step(
    s: &[u8],
    b: usize,
    key: &Vec<u8>, action: &[u8], acc: Option<i64>,
) -> (r: Option<(Option<i64>, usize)>)
    requires
        b <= s@.len(),
    ensures
        match r {
            Some(v) => spec_set_system_step(s@, b as int, key@, action@, acc) == Some(
                (v.0, v.1 as int),
            ) && b < v.1 <= s@.len(),
            None => spec_set_system_step(s@, b as int, key@, action@, acc) is None,
        },
{
    if bytes_eq(key.as_slice(), action) {
        match parse_set_action_value(s, b) {
            Some((x, c)) => Some((x, c)),
            None => None,
        }
    } else {
        match skip_value(s, b) {
            Some(c) => Some((acc, c)),
            None => None,
        }
    }
}

/// The members of the status module of a set reply: the error code of
/// its last occurrence of the named action, when one is present.
pub open spec fn spec_set_system_members(
    s: Seq<u8>,
    i: int, action: Seq<u8>, acc: Option<i64>,
    allow_end: bool,
) -> Option<(Option<i64>, int)>
    decreases s.len() - i,
{
    if i < 0 || i >= s.len() {
        None
    } else if s[i] == 125 {
        if allow_end && true {
            Some((acc, i + 1))
        } else {
            None
        }
    } else if s[i] != 34 {
        None
    } else {
        match spec_string_body(s, i + 1) {
            Some((key, j)) => {
                if i < j <= s.len() {
                    let a = spec_ws(s, j);
                    if j <= a <= s.len() && a < s.len() && s[a] == 58 {
                        let b = spec_ws(s, a + 1);
                        if a + 1 <= b <= s.len() {
                            match spec_set_system_step(s, b, key, action, acc) {
                                Some((acc2, c)) => {
                                    if b <= c <= s.len() {
                                        let e = spec_ws(s, c);
                                        if c <= e <= s.len() && e < s.len() {
                                            if s[e] == 44 {
                                                let m = spec_ws(s, e + 1);
                                                if e + 1 <= m <= s.len() {
                                                    spec_set_system_members(s, m, action, acc2, false)
                                                } else {
                                                    None
                                                }
                                            } else if s[e] == 125 {
                                                if true {
                                                    Some((acc2, e + 1))
                                                } else {
                                                    None
                                                }
                                            } else {
                                                None
                                            }
                                        } else {
                                            None
                                        }
                                    } else {
                                        None
                                    }
                                },
                                None => None,
                            }
                        } else {
                            None
                        }
                    } else {
                        None
                    }
                } else {
                    None
                }
            },
            None => None,
        }
    }
}

pub fn parse_set_system_members(
    s: &[u8],
    i: usize, action: &[u8], acc: Option<i64>,
    allow_end: bool,
) -> (r: Option<(Option<i64>, usize)>)
    requires
        i <= s@.len(),
    ensures
        match r {
            Some(v) => spec_set_system_members(s@, i as int, action@, acc, allow_end) == Some((v.0, v.1 as int)) && i
                < v.1 <= s@.len(),
            None => spec_set_system_members(s@, i as int, action@, acc, allow_end) is None,
        },
    decreases s@.len() - i,
{
    if i >= s.len() {
        return None;
    }
    if s[i] == 125 {
        if allow_end && true {
            return Some((acc, i + 1));
        } else {
            return None;
        }
    }
    if s[i] != 34 {
        return None;
    }
    match parse_string_body(s, i + 1) {
        Some((key, j)) => {
            let a = skip_ws(s, j);
            if !(a < s.len() && s[a] == 58) {
                return None;
            }
            let b = skip_ws(s, a + 1);
            match parse_set_system_step(s, b, &key, action, acc) {
                Some((acc2, c)) => {
                    let e = skip_ws(s, c);
                    if e < s.len() && s[e] == 44 {
                        let m = skip_ws(s, e + 1);
                        parse_set_system_members(s, m, action, acc2, false)
                    } else if e < s.len() && s[e] == 125 {
                        if true {
                            Some((acc2, e + 1))
                        } else {
                            None
                        }
                    } else {
                        None
                    }
                },
                None => None,
            }
        },
        None => None,
    }
}

/// The status-module object of a set reply at `i`.
pub open spec fn spec_set_system_value(s: Seq<u8>, i: int, action: Seq<u8>) -> Option<(Option<i64>, int)> {
    if 0 <= i < s.len() && s[i] == 123 {
        let j = spec_ws(s, i + 1);
        if i + 1 <= j <= s.len() {
            spec_set_system_members(s, j, action, None, true)
        } else {
            None
        }
    } else {
        None
    }
}

pub fn parse_set_system_value(s: &[u8], i: usize, action: &[u8]) -> (r: Option<(Option<i64>, usize)>)
    requires
        i <= s@.len(),
    ensures
        match r {
            Some(v) => spec_set_system_value(s@, i as int, action@) == Some((v.0, v.1 as int)) && i < v.1
                <= s@.len(),
            None => spec_set_system_value(s@, i as int, action@) is None,
        },
{
    if i < s.len() && s[i] == 123 {
        let j = skip_ws(s, i + 1);
        parse_set_system_members(s, j, action, None, true)
    } else {
        None
    }
}

/// One top-level member of a set reply, dispatched on its key.
pub open spec fn spec_set_outer_step(
    s: Seq<u8>,
    b: int,
    key: Seq<u8>, action: Seq<u8>, acc: Option<i64>,
) -> Option<(Option<i64>, int)> {
    if key == "system".spec_bytes() {
        match spec_set_system_value(s, b, action) {
            Some((x, c)) => Some((x, c)),
            None => None,
        }
    } else {
        match spec_skip_value(s, b) {
            Some(c) => Some((acc, c)),
            None => None,
        }
    }
}

pub fn parse_set_outer_step(
    s: &[u8],
    b: usize,
    key: &Vec<u8>, action: &[u8], acc: Option<i64>,
) -> (r: Option<(Option<i64>, usize)>)
    requires
        b <= s@.len(),
    ensures
        match r {
            Some(v) => spec_set_outer_step(s@, b as int, key@, action@, acc) == Some(
                (v.0, v.1 as int),
            ) && b < v.1 <= s@.len(),
            None => spec_set_outer_step(s@, b as int, key@, action@, acc) is None,
        },
{
    if bytes_eq(key.as_slice(), "system".as_bytes()) {
        match parse_set_system_value(s, b, action) {
            Some((x, c)) => Some((x, c)),
            None => None,
        }
    } else {
        match skip_value(s, b) {
            Some(c) => Some((acc, c)),
            None => None,
        }
    }
}

/// The top-level members of a set reply: the error code reported under
/// its status module for the named action, when one is present.
pub open spec fn spec_set_outer_members(
    s: Seq<u8>,
    i: int, action: Seq<u8>, acc: Option<i64>,
    allow_end: bool,
) -> Option<(Option<i64>, int)>
    decreases s.len() - i,
{
    if i < 0 || i >= s.len() {
        None
    } else if s[i] == 125 {
        if allow_end && true {
            Some((acc, i + 1))
        } else {
            None
        }
    } else if s[i] != 34 {
        None
    } else {
        match spec_string_body(s, i + 1) {
            Some((key, j)) => {
                if i < j <= s.len() {
                    let a = spec_ws(s, j);
                    if j <= a <= s.len() && a < s.len() && s[a] == 58 {
                        let b = spec_ws(s, a + 1);
                        if a + 1 <= b <= s.len() {
                            match spec_set_outer_step(s, b, key, action, acc) {
                                Some((acc2, c)) => {
                                    if b <= c <= s.len() {
                                        let e = spec_ws(s, c);
                                        if c <= e <= s.len() && e < s.len() {
                                            if s[e] == 44 {
                                                let m = spec_ws(s, e + 1);
                                                if e + 1 <= m <= s.len() {
                                                    spec_set_outer_members(s, m, action, acc2, false)
                                                } else {
                                                    None
                                                }
                                            } else if s[e] == 125 {
                                                if true {
                                                    Some((acc2, e + 1))
                                                } else {
                                                    None
                                                }
                                            } else {
                                                None
                                            }
                                        } else {
                                            None
                                        }
                                    } else {
                                        None
                                    }
                                },
                                None => None,
                            }
                        } else {
                            None
                        }
                    } else {
                        None
                    }
                } else {
                    None
                }
            },
            None => None,
        }
    }
}

pub fn parse_set_outer_members(
    s: &[u8],
    i: usize, action: &[u8], acc: Option<i64>,
    allow_end: bool,
) -> (r: Option<(Option<i64>, usize)>)
    requires
        i <= s@.len(),
    ensures
        match r {
            Some(v) => spec_set_outer_members(s@, i as int, action@, acc, allow_end) == Some((v.0, v.1 as int)) && i
                < v.1 <= s@.len(),
            None => spec_set_outer_members(s@, i as int, action@, acc, allow_end) is None,
        },
    decreases s@.len() - i,
{
    if i >= s.len() {
        return None;
    }
    if s[i] == 125 {
        if allow_end && true {
            return Some((acc, i + 1));
        } else {
            return None;
        }
    }
    if s[i] != 34 {
        return None;
    }
    match parse_string_body(s, i + 1) {
        Some((key, j)) => {
            let a = skip_ws(s, j);
            if !(a < s.len() && s[a] == 58) {
                return None;
            }
            let b = skip_ws(s, a + 1);
            match parse_set_outer_step(s, b, &key, action, acc) {
                Some((acc2, c)) => {
                    let e = skip_ws(s, c);
                    if e < s.len() && s[e] == 44 {
                        let m = skip_ws(s, e + 1);
                        parse_set_outer_members(s, m, action, acc2, false)
                    } else if e < s.len() && s[e] == 125 {
                        if true {
                            Some((acc2, e + 1))
                        } else {
                            None
                        }
                    } else {
                        None
                    }
                },
                None => None,
            }
        },
        None => None,
    }
}

/// A whole set-command reply: one object whose status module carries the
/// named action's `err_code`; `None` when the document does not parse or
/// carries no such code.
pub open spec fn spec_set_doc(s: Seq<u8>, action: Seq<u8>) -> Option<i64> {
    let i = spec_ws(s, 0);
    if 0 <= i < s.len() && s[i] == 123 {
        let j = spec_ws(s, i + 1);
        if i + 1 <= j <= s.len() {
            match spec_set_outer_members(s, j, action, None, true) {
                Some((found, k)) => {
                    if 0 <= k <= s.len() {
                        let e = spec_ws(s, k);
                        if e == s.len() {
                            found
                        } else {
                            None
                        }
                    } else {
                        None
                    }
                },
                None => None,
            }
        } else {
            None
        }
    } else {
        None
    }
}

pub fn parse_set_doc(s: &[u8], action: &[u8]) -> (r: Option<i64>)
    ensures
        r == spec_set_doc(s@, action@),
{
    let i = skip_ws(s, 0);
    if !(i < s.len() && s[i] == 123) {
        return None;
    }
    let j = skip_ws(s, i + 1);
    match parse_set_outer_members(s, j, action, None, true) {
        Some((found, k)) => {
            let e = skip_ws(s, k);
            if e == s.len() {
                found
            } else {
                None
            }
        },
        None => None,
    }
}

} // verus!
