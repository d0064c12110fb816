//! Typed shapes of the device's JSON replies: identity and state snapshots,
//! child outlets of multi-outlet units, and power-metering telemetry.
//! String-valued fields hold the raw bytes of the JSON string they were
//! parsed from; numeric fields hold the integer the device reported.

use vstd::prelude::*;

verus! {

/// A pending scheduled action slot on a child outlet.
#[derive(Clone, Copy, Debug, PartialEq, Eq, Structural)]
pub struct NextAction {
    pub type_code: i32,
}

/// One switchable socket of a multi-outlet unit, addressable by its stable
/// identifier.
#[derive(Debug)]
pub struct KasaChildren {
    pub id: Vec<u8>,
    pub state: u8,
    pub alias: Vec<u8>,
    pub on_time: u64,
    pub next_action: NextAction,
}

/// Ghost mirror of `KasaChildren`.
#[verifier::ext_equal]
pub struct KasaChildrenV {
    pub id: Seq<u8>,
    pub state: u8,
    pub alias: Seq<u8>,
    pub on_time: u64,
    pub next_action: NextAction,
}

impl View for KasaChildren {
    type V = KasaChildrenV;

    open spec fn view(&self) -> KasaChildrenV {
        KasaChildrenV {
            id: self.id@,
            state: self.state,
            alias: self.alias@,
            on_time: self.on_time,
            next_action: self.next_action,
        }
    }
}

impl DeepView for KasaChildren {
    type V = KasaChildrenV;

    open spec fn deep_view(&self) -> KasaChildrenV {
        self.view()
    }
}

impl Clone for KasaChildren {
    fn clone(&self) -> (r: Self)
        ensures
            r@ == self@,
    {
        let id = self.id.clone();
        let alias = self.alias.clone();
        proof {
            assert(id@ =~= self.id@);
            assert(alias@ =~= self.alias@);
        }
        KasaChildren {
            id,
            state: self.state,
            alias,
            on_time: self.on_time,
            next_action: self.next_action,
        }
    }
}

/// A device's identity and state snapshot.  `children` is empty and
/// `child_num` zero on single-outlet devices; `relay_state` is meaningful
/// only on single-outlet devices.
#[derive(Debug)]
#[allow(non_snake_case)]
pub struct SysInfo {
    pub alias: Vec<u8>,
    pub child_num: usize,
    pub children: Vec<KasaChildren>,
    pub deviceId: Vec<u8>,
    pub err_code: u32,
    pub feature: Vec<u8>,
    pub hwId: Vec<u8>,
    pub hw_ver: Vec<u8>,
    pub latitude_i: i32,
    pub led_off: u8,
    pub longitude_i: i32,
    pub mac: Vec<u8>,
    pub mic_type: Vec<u8>,
    pub model: Vec<u8>,
    pub oemId: Vec<u8>,
    pub on_time: u32,
    pub relay_state: u8,
    pub rssi: i32,
    pub status: Vec<u8>,
    pub sw_ver: Vec<u8>,
    pub updating: u32,
}

/// Ghost mirror of `SysInfo`.
#[allow(non_snake_case)]
#[verifier::ext_equal]
pub struct SysInfoV {
    pub alias: Seq<u8>,
    pub child_num: usize,
    pub children: Seq<KasaChildrenV>,
    pub deviceId: Seq<u8>,
    pub err_code: u32,
    pub feature: Seq<u8>,
    pub hwId: Seq<u8>,
    pub hw_ver: Seq<u8>,
    pub latitude_i: i32,
    pub led_off: u8,
    pub longitude_i: i32,
    pub mac: Seq<u8>,
    pub mic_type: Seq<u8>,
    pub model: Seq<u8>,
    pub oemId: Seq<u8>,
    pub on_time: u32,
    pub relay_state: u8,
    pub rssi: i32,
    pub status: Seq<u8>,
    pub sw_ver: Seq<u8>,
    pub updating: u32,
}

impl View for SysInfo {
    type V = SysInfoV;

    open spec fn view(&self) -> SysInfoV {
        SysInfoV {
            alias: self.alias@,
            child_num: self.child_num,
            children: self.children.deep_view(),
            deviceId: self.deviceId@,
            err_code: self.err_code,
            feature: self.feature@,
            hwId: self.hwId@,
            hw_ver: self.hw_ver@,
            latitude_i: self.latitude_i,
            led_off: self.led_off,
            longitude_i: self.longitude_i,
            mac: self.mac@,
            mic_type: self.mic_type@,
            model: self.model@,
            oemId: self.oemId@,
            on_time: self.on_time,
            relay_state: self.relay_state,
            rssi: self.rssi,
            status: self.status@,
            sw_ver: self.sw_ver@,
            updating: self.updating,
        }
    }
}

impl DeepView for SysInfo {
    type V = SysInfoV;

    open spec fn deep_view(&self) -> SysInfoV {
        self.view()
    }
}

/// Clone a byte vector; the copy's contents equal the original's.
pub fn clone_bytes(v: &Vec<u8>) -> (r: Vec<u8>)
    ensures
        r@ == v@,
{
    let r = v.clone();
    proof {
        assert(r@ =~= v@);
    }
    r
}

impl Clone for SysInfo {
    fn clone(&self) -> (r: Self)
        ensures
            r@ == self@,
    {
        let children = self.children.clone();
        proof {
            assert(children.deep_view() =~= self.children.deep_view());
        }
        SysInfo {
            alias: clone_bytes(&self.alias),
            child_num: self.child_num,
            children,
            deviceId: clone_bytes(&self.deviceId),
            err_code: self.err_code,
            feature: clone_bytes(&self.feature),
            hwId: clone_bytes(&self.hwId),
            hw_ver: clone_bytes(&self.hw_ver),
            latitude_i: self.latitude_i,
            led_off: self.led_off,
            longitude_i: self.longitude_i,
            mac: clone_bytes(&self.mac),
            mic_type: clone_bytes(&self.mic_type),
            model: clone_bytes(&self.model),
            oemId: clone_bytes(&self.oemId),
            on_time: self.on_time,
            relay_state: self.relay_state,
            rssi: self.rssi,
            status: clone_bytes(&self.status),
            sw_ver: clone_bytes(&self.sw_ver),
            updating: self.updating,
        }
    }
}

/// An instantaneous power-metering snapshot; `slot_id` ties the reading to
/// a child outlet on multi-outlet devices.
#[derive(Clone, Copy, Debug, PartialEq, Eq, Structural)]
pub struct Realtime {
    pub current_ma: u32,
    pub err_code: u32,
    pub power_mw: u32,
    pub slot_id: u32,
    pub total_wh: u32,
    pub voltage_mv: u32,
}

/// The status module of a reply: its state snapshot, when the device
/// answered that part.
pub struct System {
    pub get_sysinfo: Option<SysInfo>,
}

/// Ghost mirror of `System`.
#[verifier::ext_equal]
pub struct SystemV {
    pub get_sysinfo: Option<SysInfoV>,
}

impl View for System {
    type V = SystemV;

    open spec fn view(&self) -> SystemV {
        SystemV {
            get_sysinfo: match self.get_sysinfo {
                Some(si) => Some(si@),
                None => None,
            },
        }
    }
}

impl Clone for System {
    fn clone(&self) -> (r: Self)
        ensures
            r@ == self@,
    {
        System {
            get_sysinfo: match &self.get_sysinfo {
                Some(si) => Some(si.clone()),
                None => None,
            },
        }
    }
}

/// The telemetry module of a reply: its metering snapshot, when the device
/// answered that part.
pub struct Emeter {
    pub get_realtime: Option<Realtime>,
}

/// Ghost mirror of `Emeter`.
#[verifier::ext_equal]
pub struct EmeterV {
    pub get_realtime: Option<Realtime>,
}

impl View for Emeter {
    type V = EmeterV;

    open spec fn view(&self) -> EmeterV {
        EmeterV { get_realtime: self.get_realtime }
    }
}

impl Clone for Emeter {
    fn clone(&self) -> (r: Self)
        ensures
            r@ == self@,
    {
        Emeter {
            get_realtime: match &self.get_realtime {
                Some(rt) => Some(*rt),
                None => None,
            },
        }
    }
}

/// A parsed reply: each module slot is present exactly when the device
/// answered that module.
pub struct KasaResp {
    pub system: Option<System>,
    pub emeter: Option<Emeter>,
}

/// Ghost mirror of `KasaResp`.
#[verifier::ext_equal]
pub struct KasaRespV {
    pub system: Option<SystemV>,
    pub emeter: Option<EmeterV>,
}

impl View for KasaResp {
    type V = KasaRespV;

    open spec fn view(&self) -> KasaRespV {
        KasaRespV {
            system: match self.system {
                Some(s) => Some(s@),
                None => None,
            },
            emeter: match self.emeter {
                Some(e) => Some(e@),
                None => None,
            },
        }
    }
}

impl Clone for KasaResp {
    fn clone(&self) -> (r: Self)
        ensures
            r@ == self@,
    {
        KasaResp {
            system: match &self.system {
                Some(s) => Some(s.clone()),
                None => None,
            },
            emeter: match &self.emeter {
                Some(e) => Some(e.clone()),
                None => None,
            },
        }
    }
}

} // verus!
