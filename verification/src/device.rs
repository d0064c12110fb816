//! The device abstraction: a target address with its cached state snapshot
//! and telemetry, the decision logic of the user-facing operations (toggle,
//! scoped relay control, renaming), and the pure halves of discovery and
//! best-effort telemetry collection.  Every function here computes over
//! plain values; the channel work around them lives with the caller.

use vstd::prelude::*;
use crate::KasaError;
use crate::models::{KasaChildren, KasaChildrenV, KasaResp, KasaRespV, Realtime, SysInfo};
use crate::kasa_protocol::{
    spec_decrypt, decrypt, spec_cmd_set_relay, cmd_set_relay, spec_cmd_set_relay_by_id,
    cmd_set_relay_by_id, spec_cmd_set_alias, cmd_set_alias, spec_cmd_get_realtime_by_id,
    cmd_get_realtime_by_id, spec_realtime_of_reply, spec_sysinfo_of_reply, parse_realtime_reply,
    CIPHER_SEED,
};
use crate::schema::{spec_parse_resp, parse_resp};
use crate::{spec_valid_ip, validate_ip};

verus! {

/// A device under control: its address, the most recently fetched state
/// snapshot (absent until the first query), and the most recently fetched
/// telemetry snapshots.
pub struct Device {
    pub ip_addr: String,
    pub kasa_info: KasaResp,
    pub realtime: Vec<Realtime>,
}

/// Ghost mirror of `Device`.
#[verifier::ext_equal]
pub struct DeviceV {
    pub ip_addr: Seq<char>,
    pub kasa_info: KasaRespV,
    pub realtime: Seq<Realtime>,
}

impl View for Device {
    type V = DeviceV;

    open spec fn view(&self) -> DeviceV {
        DeviceV { ip_addr: self.ip_addr@, kasa_info: self.kasa_info@, realtime: self.realtime@ }
    }
}

impl DeepView for Device {
    type V = DeviceV;

    open spec fn deep_view(&self) -> DeviceV {
        self.view()
    }
}

/// The cached state snapshot of a device, when one module of the cached
/// reply carries it.
pub open spec fn spec_device_sysinfo(d: DeviceV) -> Option<crate::models::SysInfoV> {
    match d.kasa_info.system {
        Some(sys) => sys.get_sysinfo,
        None => None,
    }
}

/// The cached child-outlet list, when a snapshot is cached.
pub open spec fn spec_device_children(d: DeviceV) -> Option<Seq<KasaChildrenV>> {
    match spec_device_sysinfo(d) {
        Some(si) => Some(si.children),
        None => None,
    }
}

/// The cached outlet count, when a snapshot is cached.
pub open spec fn spec_device_num_children(d: DeviceV) -> Option<usize> {
    match spec_device_sysinfo(d) {
        Some(si) => Some(si.child_num),
        None => None,
    }
}

impl Device {
    /// A device fresh from discovery or resolution: no telemetry cached yet.
    pub fn new(ip_addr: String, kasa_info: KasaResp) -> (d: Device)
        ensures
            d@.ip_addr == ip_addr@,
            d@.kasa_info == kasa_info@,
            d@.realtime == Seq::<Realtime>::empty(),
    {
        let d = Device { ip_addr, kasa_info, realtime: Vec::new() };
        proof {
            assert(d@.realtime =~= Seq::<Realtime>::empty());
        }
        d
    }

    /// The cached state snapshot, if the cached reply carries one.
    pub fn sysinfo(&self) -> (r: Option<SysInfo>)
        ensures
            match spec_device_sysinfo(self@) {
                Some(si) => r is Some && r.unwrap()@ == si,
                None => r is None,
            },
    {
        match &self.kasa_info.system {
            Some(sys) => match &sys.get_sysinfo {
                Some(si) => Some(si.clone()),
                None => None,
            },
            None => None,
        }
    }

    /// The cached child-outlet list, if a snapshot is cached.
    pub fn children(&self) -> (r: Option<Vec<KasaChildren>>)
        ensures
            match spec_device_children(self@) {
                Some(cs) => r is Some && r.unwrap().deep_view() == cs,
                None => r is None,
            },
    {
        match self.sysinfo() {
            Some(si) => Some(si.children),
            None => None,
        }
    }

    /// The cached outlet count, if a snapshot is cached.
    pub fn num_children(&self) -> (r: Option<usize>)
        ensures
            r == spec_device_num_children(self@),
    {
        match &self.kasa_info.system {
            Some(sys) => match &sys.get_sysinfo {
                Some(si) => Some(si.child_num),
                None => None,
            },
            None => None,
        }
    }

    /// Whether the cached snapshot reports any child outlets.
    pub fn has_children(&self) -> (r: bool)
        ensures
            r == (spec_device_num_children(self@) is Some && spec_device_num_children(
                self@,
            ).unwrap() > 0),
    {
        match self.num_children() {
            Some(nc) => nc > 0,
            None => false,
        }
    }

    /// Refresh the cached state snapshot from an obfuscated status reply.
    /// On success the snapshot is overwritten, never merged, and the cached
    /// telemetry is kept; on failure the whole cache is left untouched.
    pub fn refresh_sysinfo(&mut self, raw: &Vec<u8>) -> (r: Result<(), KasaError>)
        ensures
            match r {
                Ok(u) => spec_sysinfo_of_reply(raw@) is Some && spec_device_sysinfo(final(self)@)
                    == spec_sysinfo_of_reply(raw@) && final(self)@.kasa_info.emeter is None
                    && final(self)@.ip_addr == old(self)@.ip_addr && final(self)@.realtime == old(
                    self,
                )@.realtime,
                Err(e) => final(self)@ == old(self)@ && spec_sysinfo_of_reply(raw@) is None && e
                    == KasaError::ParseError,
            },
    {
        match crate::kasa_protocol::parse_sysinfo_reply(raw) {
            Ok(si) => {
                self.kasa_info = KasaResp {
                    system: Some(crate::models::System { get_sysinfo: Some(si) }),
                    emeter: None,
                };
                Ok(())
            },
            Err(e) => Err(e),
        }
    }

    /// Refresh the cached telemetry from a batch of per-child replies: the
    /// snapshots that arrived overwrite the cache; the rest of the cache is
    /// untouched.
    pub fn refresh_telemetry_all(&mut self, replies: &Vec<Option<Vec<u8>>>)
        ensures
            final(self)@.realtime == spec_collected_realtime(replies@),
            final(self)@.ip_addr == old(self)@.ip_addr,
            final(self)@.kasa_info == old(self)@.kasa_info,
    {
        self.realtime = collect_realtime(replies);
    }

    /// The cached telemetry snapshots.
    #[verifier::loop_isolation(false)]
    pub fn realtime(&self) -> (r: Vec<Realtime>)
        ensures
            r@ == self@.realtime,
    {
        let mut out: Vec<Realtime> = Vec::new();
        let mut i: usize = 0;
        while i < self.realtime.len()
            invariant
                i <= self.realtime@.len(),
                out@ == self.realtime@.take(i as int),
            decreases self.realtime@.len() - i,
        {
            proof {
                assert(self.realtime@.take(i + 1) =~= self.realtime@.take(i as int) + seq![
                    self.realtime@[i as int],
                ]);
            }
            out.push(self.realtime[i]);
            i = i + 1;
        }
        proof {
            assert(self.realtime@.take(i as int) =~= self.realtime@);
        }
        out
    }
}

/// The relay state a toggle must request: the inverse of the state the
/// device reports, zero becoming one and anything else zero.
pub open spec fn spec_toggle_state(current: u8) -> u8 {
    if current == 0 {
        1
    } else {
        0
    }
}

/// Compute the relay state a toggle must request.
pub fn toggle_target_state(current: u8) -> (r: u8)
    ensures
        r == spec_toggle_state(current),
{
    if current == 0 {
        1
    } else {
        0
    }
}

/// The relay command that toggling a one-outlet device issues: the inverse
/// of the reported relay state, so a device reporting state zero is sent
/// state one and the other way round.
pub fn toggle_single_command(si: &SysInfo) -> (r: Vec<u8>)
    ensures
        r@ == spec_cmd_set_relay(spec_toggle_state(si@.relay_state)),
{
    cmd_set_relay(toggle_target_state(si.relay_state))
}

/// The scoped relay command that toggling child `idx` issues: addressed by
/// the child's stable identifier, never its position, with the inverse of
/// the child's reported state; `None` when the index is out of range.
pub fn toggle_child_command(children: &Vec<KasaChildren>, idx: usize) -> (r: Option<Vec<u8>>)
    ensures
        idx < children@.len() ==> r is Some && r.unwrap()@ == spec_cmd_set_relay_by_id(
            children.deep_view()[idx as int].id,
            spec_toggle_state(children.deep_view()[idx as int].state),
        ),
        idx >= children@.len() ==> r is None,
{
    if idx < children.len() {
        let c = &children[idx];
        proof {
            assert(children.deep_view()[idx as int] == children@[idx as int].deep_view());
        }
        Some(cmd_set_relay_by_id(c.id.as_slice(), toggle_target_state(c.state)))
    } else {
        None
    }
}

/// The scoped relay command for child `idx`: the index is resolved to the
/// child's stable identifier before the command is built, so the context
/// block names the identifier, never the position; `None` when the index
/// is out of range.
pub fn set_child_relay_command(children: &Vec<KasaChildren>, idx: usize, state: u8) -> (r: Option<
    Vec<u8>,
>)
    requires
        state <= 1,
    ensures
        idx < children@.len() ==> r is Some && r.unwrap()@ == spec_cmd_set_relay_by_id(
            children.deep_view()[idx as int].id,
            state,
        ),
        idx >= children@.len() ==> r is None,
{
    if idx < children.len() {
        let c = &children[idx];
        proof {
            assert(children.deep_view()[idx as int] == children@[idx as int].deep_view());
        }
        Some(cmd_set_relay_by_id(c.id.as_slice(), state))
    } else {
        None
    }
}

/// The scoped rename command for child `idx`, addressed by the child's
/// stable identifier; `None` when the index is out of range.
pub fn rename_child_command(children: &Vec<KasaChildren>, idx: usize, alias: &[u8]) -> (r: Option<
    Vec<u8>,
>)
    ensures
        idx < children@.len() ==> r is Some && r.unwrap()@ == spec_cmd_set_alias(
            children.deep_view()[idx as int].id,
            alias@,
        ),
        idx >= children@.len() ==> r is None,
{
    if idx < children.len() {
        let c = &children[idx];
        proof {
            assert(children.deep_view()[idx as int] == children@[idx as int].deep_view());
        }
        Some(cmd_set_alias(c.id.as_slice(), alias))
    } else {
        None
    }
}

/// The scoped telemetry query for child `idx`, addressed by the child's
/// stable identifier; `None` when the index is out of range.
pub fn realtime_child_command(children: &Vec<KasaChildren>, idx: usize) -> (r: Option<Vec<u8>>)
    ensures
        idx < children@.len() ==> r is Some && r.unwrap()@ == spec_cmd_get_realtime_by_id(
            children.deep_view()[idx as int].id,
        ),
        idx >= children@.len() ==> r is None,
{
    if idx < children.len() {
        let c = &children[idx];
        proof {
            assert(children.deep_view()[idx as int] == children@[idx as int].deep_view());
        }
        Some(cmd_get_realtime_by_id(c.id.as_slice()))
    } else {
        None
    }
}

/// Which error resolving a target address must report: an empty target is
/// the caller's decision to skip discovery, a non-empty malformed one is a
/// bad address; a well-formed one is accepted.
pub fn check_target(t_addr: &String) -> (r: Result<(), KasaError>)
    ensures
        t_addr@.len() == 0 ==> r == Err::<(), KasaError>(KasaError::NoTargetError),
        t_addr@.len() > 0 && !spec_valid_ip(vstd::utf8::encode_utf8(t_addr@)) ==> r == Err::<
            (),
            KasaError,
        >(KasaError::InvalidAddress),
        t_addr@.len() > 0 && spec_valid_ip(vstd::utf8::encode_utf8(t_addr@)) ==> r == Ok::<
            (),
            KasaError,
        >(()),
{
    if t_addr.as_str().is_empty() {
        Err(KasaError::NoTargetError)
    } else if validate_ip(t_addr) {
        Ok(())
    } else {
        Err(KasaError::InvalidAddress)
    }
}

/// The devices a batch of discovery replies yields: each reply decoded and
/// parsed independently, a reply that does not parse dropped, the rest
/// keyed by their source address, in arrival order, with no telemetry
/// cached yet.
pub open spec fn spec_discovered(replies: Seq<(String, Vec<u8>)>) -> Seq<DeviceV>
    decreases replies.len(),
{
    if replies.len() == 0 {
        Seq::empty()
    } else {
        let rest = spec_discovered(replies.drop_first());
        match spec_parse_resp(spec_decrypt(replies[0].1@, CIPHER_SEED)) {
            Some(v) => seq![
                DeviceV { ip_addr: replies[0].0@, kasa_info: v, realtime: Seq::empty() },
            ] + rest,
            None => rest,
        }
    }
}

/// Fold a batch of discovery replies into devices.  A reply that does not
/// decode to a well-formed reply document is dropped, never fatal; zero
/// replies yield the empty list, not an error.
#[verifier::loop_isolation(false)]
pub fn collect_discovery(replies: &Vec<(String, Vec<u8>)>) -> (r: Vec<Device>)
    ensures
        r.deep_view() == spec_discovered(replies@),
{
    let mut out: Vec<Device> = Vec::new();
    let mut i: usize = 0;
    proof {
        assert(replies@.skip(0) =~= replies@);
        assert(out.deep_view() =~= Seq::<DeviceV>::empty());
        assert(Seq::<DeviceV>::empty() + spec_discovered(replies@) =~= spec_discovered(replies@));
    }
    while i < replies.len()
        invariant
            i <= replies@.len(),
            out.deep_view() + spec_discovered(replies@.skip(i as int)) == spec_discovered(
                replies@,
            ),
        decreases replies@.len() - i,
    {
        let pair = &replies[i];
        proof {
            let rest = replies@.skip(i as int);
            assert(rest[0] == replies@[i as int]);
            assert(rest.drop_first() =~= replies@.skip(i + 1));
        }
        let clear = decrypt(&pair.1);
        match parse_resp(clear.as_slice()) {
            Some(resp) => {
                let ghost pre = out.deep_view();
                let ghost dv = DeviceV {
                    ip_addr: pair.0@,
                    kasa_info: resp@,
                    realtime: Seq::empty(),
                };
                let d = Device::new(pair.0.clone(), resp);
                proof {
                    assert(d@ =~= dv);
                }
                out.push(d);
                proof {
                    assert(out.deep_view() =~= pre.push(dv));
                    assert(pre.push(dv) + spec_discovered(replies@.skip(i + 1)) =~= pre + (seq![dv]
                        + spec_discovered(replies@.skip(i + 1))));
                }
            },
            None => {},
        }
        i = i + 1;
    }
    proof {
        assert(replies@.skip(i as int) =~= Seq::<(String, Vec<u8>)>::empty());
        assert(out.deep_view() + Seq::<DeviceV>::empty() =~= out.deep_view());
    }
    out
}

/// The telemetry snapshots a batch of per-child replies yields: a child
/// whose exchange failed (no reply) or whose reply carries no snapshot is
/// omitted; the others keep their order.
pub open spec fn spec_collected_realtime(replies: Seq<Option<Vec<u8>>>) -> Seq<Realtime>
    decreases replies.len(),
{
    if replies.len() == 0 {
        Seq::empty()
    } else {
        let rest = spec_collected_realtime(replies.drop_first());
        match replies[0] {
            Some(raw) => match spec_realtime_of_reply(raw@) {
                Some(rt) => seq![rt] + rest,
                None => rest,
            },
            None => rest,
        }
    }
}

/// Fold per-child telemetry replies into the snapshots that arrived.
/// Collection is best effort: one child's failure (a missing reply, or one
/// without a snapshot) is swallowed and its entry omitted, never fatal to
/// the rest.
#[verifier::loop_isolation(false)]
pub fn collect_realtime(replies: &Vec<Option<Vec<u8>>>) -> (r: Vec<Realtime>)
    ensures
        r@ == spec_collected_realtime(replies@),
{
    let mut out: Vec<Realtime> = Vec::new();
    let mut i: usize = 0;
    proof {
        assert(replies@.skip(0) =~= replies@);
        assert(Seq::<Realtime>::empty() + spec_collected_realtime(replies@)
            =~= spec_collected_realtime(replies@));
    }
    while i < replies.len()
        invariant
            i <= replies@.len(),
            out@ + spec_collected_realtime(replies@.skip(i as int)) == spec_collected_realtime(
                replies@,
            ),
        decreases replies@.len() - i,
    {
        proof {
            let rest = replies@.skip(i as int);
            assert(rest[0] == replies@[i as int]);
            assert(rest.drop_first() =~= replies@.skip(i + 1));
        }
        match &replies[i] {
            Some(raw) => {
                match parse_realtime_reply(raw) {
                    Ok(rt) => {
                        let ghost pre = out@;
                        out.push(rt);
                        proof {
                            assert(out@ =~= pre.push(rt));
                            assert(pre.push(rt) + spec_collected_realtime(replies@.skip(i + 1))
                                =~= pre + (seq![rt] + spec_collected_realtime(
                                replies@.skip(i + 1),
                            )));
                        }
                    },
                    Err(_) => {},
                }
            },
            None => {},
        }
        i = i + 1;
    }
    proof {
        assert(replies@.skip(i as int) =~= Seq::<Option<Vec<u8>>>::empty());
        assert(out@ + Seq::<Realtime>::empty() =~= out@);
    }
    out
}

} // verus!
