//! The wire layer of the protocol: the XOR-autokey obfuscation cipher that
//! every message passes through, and the four-byte big-endian length framing
//! used on stream transports.  Discovery datagrams use the cipher without
//! the length prefix.

use vstd::prelude::*;
use vstd::string::StringSliceAdditionalSpecFns;
use vstd::string::StrSliceExecFns;
use crate::KasaError;
use crate::models::{SysInfo, SysInfoV, Realtime, KasaResp};
use crate::schema::{spec_parse_resp, parse_resp, spec_set_doc, parse_set_doc};

verus! {

/// The fixed initial value of the rolling cipher key, reset for every
/// independent message.
pub const CIPHER_SEED: u8 = 171;

/// Obfuscated form of `s` under rolling key `key`: each output byte is the
/// key XOR the next input byte, and that output byte becomes the next key.
pub open spec fn spec_encrypt(s: Seq<u8>, key: u8) -> Seq<u8>
    decreases s.len(),
{
    if s.len() == 0 {
        Seq::empty()
    } else {
        let o = key ^ s[0];
        seq![o] + spec_encrypt(s.drop_first(), o)
    }
}

/// Clear form of `s` under rolling key `key`: each output byte is the key
/// XOR the next input byte, and that input byte becomes the next key.
pub open spec fn spec_decrypt(s: Seq<u8>, key: u8) -> Seq<u8>
    decreases s.len(),
{
    if s.len() == 0 {
        Seq::empty()
    } else {
        seq![key ^ s[0]] + spec_decrypt(s.drop_first(), s[0])
    }
}

pub proof fn lemma_encrypt_len(s: Seq<u8>, key: u8)
    ensures
        spec_encrypt(s, key).len() == s.len(),
    decreases s.len(),
{
    if s.len() > 0 {
        lemma_encrypt_len(s.drop_first(), key ^ s[0]);
    }
}

proof fn lemma_cipher_roundtrip_rec(s: Seq<u8>, key: u8)
    ensures
        spec_decrypt(spec_encrypt(s, key), key) == s,
    decreases s.len(),
{
    if s.len() == 0 {
        assert(spec_decrypt(spec_encrypt(s, key), key) =~= s);
    } else {
        let o = key ^ s[0];
        let e = spec_encrypt(s, key);
        assert(e == seq![o] + spec_encrypt(s.drop_first(), o));
        assert(e[0] == o);
        assert(e.len() > 0);
        assert(e.drop_first() =~= spec_encrypt(s.drop_first(), o));
        assert(forall|k: u8, b: u8| (k ^ (k ^ b)) == b) by (bit_vector);
        lemma_cipher_roundtrip_rec(s.drop_first(), o);
        assert(spec_decrypt(e, key) == seq![key ^ o] + spec_decrypt(e.drop_first(), o));
        assert(spec_decrypt(e, key) =~= s);
    }
}

/// Cipher round trip: decoding an encoding returns the original byte
/// string, for every byte string including the empty one.
pub proof fn lemma_cipher_roundtrip(s: Seq<u8>)
    ensures
        spec_decrypt(spec_encrypt(s, CIPHER_SEED), CIPHER_SEED) == s,
{
    lemma_cipher_roundtrip_rec(s, CIPHER_SEED);
}

/// Cipher determinism: the key is reset to its seed for every message, so
/// the obfuscated form is a function of the plaintext alone, identical
/// across repeated encodings.
pub proof fn lemma_encrypt_deterministic(s1: Seq<u8>, s2: Seq<u8>)
    requires
        s1 == s2,
    ensures
        spec_encrypt(s1, CIPHER_SEED) == spec_encrypt(s2, CIPHER_SEED),
{
}

/// Obfuscate a byte string with the per-message seed.
#[verifier::loop_isolation(false)]
pub fn encrypt_bytes(input: &[u8]) -> (r: Vec<u8>)
    ensures
        r@ == spec_encrypt(input@, CIPHER_SEED),
{
    let mut result: Vec<u8> = Vec::new();
    let mut key: u8 = CIPHER_SEED;
    let mut i: usize = 0;
    proof {
        assert(input@.skip(0) =~= input@);
        assert(Seq::<u8>::empty() + spec_encrypt(input@, CIPHER_SEED) =~= spec_encrypt(
            input@,
            CIPHER_SEED,
        ));
    }
    while i < input.len()
        invariant
            i <= input@.len(),
            result@ + spec_encrypt(input@.skip(i as int), key) == spec_encrypt(
                input@,
                CIPHER_SEED,
            ),
        decreases input@.len() - i,
    {
        let o = key ^ input[i];
        proof {
            let rest = input@.skip(i as int);
            assert(rest[0] == input@[i as int]);
            assert(rest.drop_first() =~= input@.skip(i + 1));
            assert(spec_encrypt(rest, key) == seq![o] + spec_encrypt(input@.skip(i + 1), o));
            assert((result@ + seq![o]) + spec_encrypt(input@.skip(i + 1), o) =~= result@ + (seq![o]
                + spec_encrypt(input@.skip(i + 1), o)));
        }
        result.push(o);
        key = o;
        i = i + 1;
    }
    proof {
        assert(input@.skip(i as int) =~= Seq::<u8>::empty());
        assert(result@ + Seq::<u8>::empty() =~= result@);
    }
    result
}

/// Reverse the obfuscation: decode a byte string with the per-message seed.
#[verifier::loop_isolation(false)]
pub fn decrypt(input: &Vec<u8>) -> (r: Vec<u8>)
    ensures
        r@ == spec_decrypt(input@, CIPHER_SEED),
{
    let mut result: Vec<u8> = Vec::new();
    let mut key: u8 = CIPHER_SEED;
    let mut i: usize = 0;
    proof {
        assert(input@.skip(0) =~= input@);
        assert(Seq::<u8>::empty() + spec_decrypt(input@, CIPHER_SEED) =~= spec_decrypt(
            input@,
            CIPHER_SEED,
        ));
    }
    while i < input.len()
        invariant
            i <= input@.len(),
            result@ + spec_decrypt(input@.skip(i as int), key) == spec_decrypt(
                input@,
                CIPHER_SEED,
            ),
        decreases input@.len() - i,
    {
        let c = input[i];
        let o = key ^ c;
        proof {
            let rest = input@.skip(i as int);
            assert(rest[0] == input@[i as int]);
            assert(rest.drop_first() =~= input@.skip(i + 1));
            assert(spec_decrypt(rest, key) == seq![o] + spec_decrypt(input@.skip(i + 1), c));
            assert((result@ + seq![o]) + spec_decrypt(input@.skip(i + 1), c) =~= result@ + (seq![o]
                + spec_decrypt(input@.skip(i + 1), c)));
        }
        result.push(o);
        key = c;
        i = i + 1;
    }
    proof {
        assert(input@.skip(i as int) =~= Seq::<u8>::empty());
        assert(result@ + Seq::<u8>::empty() =~= result@);
    }
    result
}

/// A 32-bit value as four big-endian bytes.
pub open spec fn spec_u32_be(x: u32) -> Seq<u8> {
    seq![(x >> 24) as u8, (x >> 16) as u8, (x >> 8) as u8, x as u8]
}

/// The 32-bit value of four big-endian bytes.
pub open spec fn spec_u32_from_be(s: Seq<u8>) -> u32 {
    (((s[0] as u32) << 24) | ((s[1] as u32) << 16) | ((s[2] as u32) << 8) | (s[3] as u32)) as u32
}

pub proof fn lemma_u32_be_roundtrip(x: u32)
    ensures
        spec_u32_from_be(spec_u32_be(x)) == x,
{
    assert((((((x >> 24) as u8) as u32) << 24) | ((((x >> 16) as u8) as u32) << 16) | ((((x >> 8)
        as u8) as u32) << 8) | ((x as u8) as u32)) == x) by (bit_vector);
}

/// A stream frame: the payload's byte length as four big-endian bytes,
/// then the payload itself.
pub open spec fn spec_frame(p: Seq<u8>) -> Seq<u8> {
    spec_u32_be(p.len() as u32) + p
}

/// A byte string holds a complete frame when the four-byte prefix has
/// arrived and at least as many further bytes as the prefix declares.
pub open spec fn spec_frame_complete(s: Seq<u8>) -> bool {
    s.len() >= 4 && s.len() - 4 >= spec_u32_from_be(s.subrange(0, 4))
}

/// The payload of a complete frame: exactly the declared number of bytes
/// after the prefix.
pub open spec fn spec_frame_payload(s: Seq<u8>) -> Seq<u8> {
    s.subrange(4, 4 + spec_u32_from_be(s.subrange(0, 4)))
}

/// Framing round trip: for every payload whose length fits the four-byte
/// field, the frame of `p` is complete, declares exactly `p.len()`, parses
/// back to `p`, and re-framing the parsed payload gives the identical
/// frame.
pub proof fn lemma_frame_roundtrip(p: Seq<u8>)
    requires
        p.len() <= u32::MAX,
    ensures
        spec_frame_complete(spec_frame(p)),
        spec_u32_from_be(spec_frame(p).subrange(0, 4)) == p.len(),
        spec_frame_payload(spec_frame(p)) == p,
        spec_frame(spec_frame_payload(spec_frame(p))) == spec_frame(p),
{
    assert(spec_frame(p).subrange(0, 4) =~= spec_u32_be(p.len() as u32));
    lemma_u32_be_roundtrip(p.len() as u32);
    assert(spec_frame_payload(spec_frame(p)) =~= p);
}

/// Append every byte of `src` to `dst`.
#[verifier::loop_isolation(false)]
pub fn push_all(dst: &mut Vec<u8>, src: &[u8])
    ensures
        final(dst)@ == old(dst)@ + src@,
{
    let mut i: usize = 0;
    while i < src.len()
        invariant
            i <= src@.len(),
            dst@ == old(dst)@ + src@.take(i as int),
        decreases src@.len() - i,
    {
        proof {
            assert(old(dst)@ + src@.take(i + 1) =~= (old(dst)@ + src@.take(i as int)) + seq![
                src@[i as int],
            ]);
        }
        dst.push(src[i]);
        i = i + 1;
    }
    proof {
        assert(src@.take(i as int) =~= src@);
    }
}

/// Obfuscate a request and, when `inc_len` is set, put the stream framing
/// around it; with `inc_len` false this is the discovery datagram form.
pub fn encode_request(cmd: &[u8], inc_len: bool) -> (r: Vec<u8>)
    requires
        cmd@.len() <= u32::MAX,
    ensures
        inc_len ==> r@ == spec_frame(spec_encrypt(cmd@, CIPHER_SEED)),
        !inc_len ==> r@ == spec_encrypt(cmd@, CIPHER_SEED),
{
    let body = encrypt_bytes(cmd);
    proof {
        lemma_encrypt_len(cmd@, CIPHER_SEED);
    }
    if inc_len {
        let n = cmd.len() as u32;
        let mut result: Vec<u8> = Vec::new();
        result.push((n >> 24) as u8);
        result.push((n >> 16) as u8);
        result.push((n >> 8) as u8);
        result.push(n as u8);
        proof {
            assert(result@ =~= spec_u32_be(n));
        }
        push_all(&mut result, body.as_slice());
        result
    } else {
        body
    }
}

/// Obfuscate the text of a request and, when `inc_len` is set, precede it
/// with its byte length as four big-endian bytes.
pub fn encrypt(input: &str, inc_len: bool) -> (r: Vec<u8>)
    requires
        input.spec_bytes().len() <= u32::MAX,
    ensures
        inc_len ==> r@ == spec_frame(spec_encrypt(input.spec_bytes(), CIPHER_SEED)),
        !inc_len ==> r@ == spec_encrypt(input.spec_bytes(), CIPHER_SEED),
{
    encode_request(input.as_bytes(), inc_len)
}

/// Incremental reader of one length-prefixed frame.  Bytes arrive in
/// chunks of any size, split at any boundary; the reader accumulates them
/// and is complete once the four-byte prefix and the declared number of
/// payload bytes have all arrived.
pub struct FrameReader {
    buf: Vec<u8>,
}

impl View for FrameReader {
    type V = Seq<u8>;

    closed spec fn view(&self) -> Seq<u8> {
        self.buf@
    }
}

impl FrameReader {
    /// A reader that has seen no bytes yet.
    pub fn new() -> (r: FrameReader)
        ensures
            r@ == Seq::<u8>::empty(),
    {
        FrameReader { buf: Vec::new() }
    }

    /// Hand the reader the next chunk from the channel.
    pub fn feed(&mut self, chunk: &[u8])
        ensures
            final(self)@ == old(self)@ + chunk@,
    {
        push_all(&mut self.buf, chunk);
    }

    /// Whether the whole declared frame has arrived.
    pub fn is_complete(&self) -> (r: bool)
        ensures
            r == spec_frame_complete(self@),
    {
        if self.buf.len() < 4 {
            return false;
        }
        let n = (((self.buf[0] as u32) << 24) | ((self.buf[1] as u32) << 16) | ((self.buf[2]
            as u32) << 8) | (self.buf[3] as u32)) as u32;
        proof {
            assert(self.buf@.subrange(0, 4)[0] == self.buf@[0]);
            assert(self.buf@.subrange(0, 4)[1] == self.buf@[1]);
            assert(self.buf@.subrange(0, 4)[2] == self.buf@[2]);
            assert(self.buf@.subrange(0, 4)[3] == self.buf@[3]);
        }
        self.buf.len() - 4 >= n as usize
    }

    /// The payload of the frame: the declared number of bytes after the
    /// prefix, once they have all arrived, and nothing before that.
    #[verifier::loop_isolation(false)]
    pub fn payload(&self) -> (r: Option<Vec<u8>>)
        ensures
            spec_frame_complete(self@) ==> r is Some && r.unwrap()@ == spec_frame_payload(self@),
            !spec_frame_complete(self@) ==> r is None,
    {
        if !self.is_complete() {
            return None;
        }
        let n = (((self.buf[0] as u32) << 24) | ((self.buf[1] as u32) << 16) | ((self.buf[2]
            as u32) << 8) | (self.buf[3] as u32)) as u32;
        proof {
            assert(self.buf@.subrange(0, 4)[0] == self.buf@[0]);
            assert(self.buf@.subrange(0, 4)[1] == self.buf@[1]);
            assert(self.buf@.subrange(0, 4)[2] == self.buf@[2]);
            assert(self.buf@.subrange(0, 4)[3] == self.buf@[3]);
        }
        let len = n as usize;
        let total = self.buf.len();
        proof {
            assert(n == spec_u32_from_be(self@.subrange(0, 4)));
            assert(4 + len <= total);
        }
        let end: usize = 4 + len;
        let mut out: Vec<u8> = Vec::new();
        let mut i: usize = 4;
        while i < end
            invariant
                4 <= i <= end,
                out@ == self@.subrange(4, i as int),
            decreases end - i,
        {
            proof {
                assert(self@.subrange(4, i + 1) =~= self@.subrange(4, i as int) + seq![
                    self@[i as int],
                ]);
            }
            out.push(self.buf[i]);
            i = i + 1;
        }
        Some(out)
    }
}

/// JSON escape of one byte of a string value: the quote, the backslash and
/// the five named control characters get their two-character escapes, the
/// remaining control bytes the six-character unicode escape, and every
/// other byte passes through unchanged.
pub open spec fn spec_escape_byte(b: u8) -> Seq<u8> {
    if b == 34 {
        seq![92u8, 34u8]
    } else if b == 92 {
        seq![92u8, 92u8]
    } else if b == 8 {
        seq![92u8, 98u8]
    } else if b == 9 {
        seq![92u8, 116u8]
    } else if b == 10 {
        seq![92u8, 110u8]
    } else if b == 12 {
        seq![92u8, 102u8]
    } else if b == 13 {
        seq![92u8, 114u8]
    } else if b < 32 {
        seq![92u8, 117u8, 48u8, 48u8, spec_hex_digit(b / 16), spec_hex_digit(b % 16)]
    } else {
        seq![b]
    }
}

/// The lowercase hexadecimal digit for a value below sixteen.
pub open spec fn spec_hex_digit(x: u8) -> u8 {
    if x < 10 {
        (48 + x) as u8
    } else {
        (87 + x) as u8
    }
}

/// JSON escape of a whole string value.
pub open spec fn spec_escape(s: Seq<u8>) -> Seq<u8>
    decreases s.len(),
{
    if s.len() == 0 {
        Seq::empty()
    } else {
        spec_escape_byte(s[0]) + spec_escape(s.drop_first())
    }
}

/// Escape a string value for embedding in a built request.
#[verifier::loop_isolation(false)]
pub fn escape(s: &[u8]) -> (r: Vec<u8>)
    ensures
        r@ == spec_escape(s@),
{
    let mut result: Vec<u8> = Vec::new();
    let mut i: usize = 0;
    proof {
        assert(s@.skip(0) =~= s@);
        assert(Seq::<u8>::empty() + spec_escape(s@) =~= spec_escape(s@));
    }
    while i < s.len()
        invariant
            i <= s@.len(),
            result@ + spec_escape(s@.skip(i as int)) == spec_escape(s@),
        decreases s@.len() - i,
    {
        let b = s[i];
        let ghost pre = result@;
        proof {
            assert(s@.skip(i as int)[0] == s@[i as int]);
            assert(s@.skip(i as int).drop_first() =~= s@.skip(i + 1));
            assert(spec_escape(s@.skip(i as int)) == spec_escape_byte(b) + spec_escape(
                s@.skip(i + 1),
            ));
        }
        if b == 34 {
            result.push(92);
            result.push(34);
        } else if b == 92 {
            result.push(92);
            result.push(92);
        } else if b == 8 {
            result.push(92);
            result.push(98);
        } else if b == 9 {
            result.push(92);
            result.push(116);
        } else if b == 10 {
            result.push(92);
            result.push(110);
        } else if b == 12 {
            result.push(92);
            result.push(102);
        } else if b == 13 {
            result.push(92);
            result.push(114);
        } else if b < 32 {
            result.push(92);
            result.push(117);
            result.push(48);
            result.push(48);
            let hi = b / 16;
            let lo = b % 16;
            result.push(if hi < 10 { 48 + hi } else { 87 + hi });
            result.push(if lo < 10 { 48 + lo } else { 87 + lo });
        } else {
            result.push(b);
        }
        proof {
            assert(result@ =~= pre + spec_escape_byte(b));
            assert((pre + spec_escape_byte(b)) + spec_escape(s@.skip(i + 1)) =~= pre + (
            spec_escape_byte(b) + spec_escape(s@.skip(i + 1))));
        }
        i = i + 1;
    }
    proof {
        assert(s@.skip(i as int) =~= Seq::<u8>::empty());
        assert(result@ + Seq::<u8>::empty() =~= result@);
    }
    result
}

/// The status query sent over a stream connection.
pub open spec fn spec_cmd_get_sysinfo() -> Seq<u8> {
    "{\"system\":{\"get_sysinfo\":null}}".spec_bytes()
}

/// Build the status query.
pub fn cmd_get_sysinfo() -> (r: Vec<u8>)
    ensures
        r@ == spec_cmd_get_sysinfo(),
{
    "{\"system\":{\"get_sysinfo\":null}}".as_bytes_vec()
}

/// The status query broadcast during discovery.
pub open spec fn spec_cmd_discovery() -> Seq<u8> {
    "{\"system\":{\"get_sysinfo\":0}}".spec_bytes()
}

/// Build the discovery broadcast query.
pub fn cmd_discovery() -> (r: Vec<u8>)
    ensures
        r@ == spec_cmd_discovery(),
{
    "{\"system\":{\"get_sysinfo\":0}}".as_bytes_vec()
}

/// The unscoped telemetry query.
pub open spec fn spec_cmd_get_realtime() -> Seq<u8> {
    "{\"emeter\":{\"get_realtime\":null}}".spec_bytes()
}

/// Build the unscoped telemetry query.
pub fn cmd_get_realtime() -> (r: Vec<u8>)
    ensures
        r@ == spec_cmd_get_realtime(),
{
    "{\"emeter\":{\"get_realtime\":null}}".as_bytes_vec()
}

/// The telemetry query scoped to one child outlet: a context block naming
/// the child's identifier beside the telemetry module.
pub open spec fn spec_cmd_get_realtime_by_id(id: Seq<u8>) -> Seq<u8> {
    "{\"context\":{\"child_ids\":[\"".spec_bytes() + spec_escape(id)
        + "\"]},\"emeter\":{\"get_realtime\":null}}".spec_bytes()
}

/// Build the telemetry query scoped to the child with identifier `id`.
pub fn cmd_get_realtime_by_id(id: &[u8]) -> (r: Vec<u8>)
    ensures
        r@ == spec_cmd_get_realtime_by_id(id@),
{
    let mut v = "{\"context\":{\"child_ids\":[\"".as_bytes_vec();
    let e = escape(id);
    push_all(&mut v, e.as_slice());
    push_all(&mut v, "\"]},\"emeter\":{\"get_realtime\":null}}".as_bytes());
    proof {
        assert(v@ =~= spec_cmd_get_realtime_by_id(id@));
    }
    v
}

/// The relay command for the single outlet of a one-outlet device.
pub open spec fn spec_cmd_set_relay(state: u8) -> Seq<u8> {
    "{\"system\":{\"set_relay_state\":{\"state\":".spec_bytes() + seq![(48 + state) as u8]
        + "}}}".spec_bytes()
}

/// Build the relay command for a one-outlet device; the target state is
/// binary.
pub fn cmd_set_relay(state: u8) -> (r: Vec<u8>)
    requires
        state <= 1,
    ensures
        r@ == spec_cmd_set_relay(state),
{
    let mut v = "{\"system\":{\"set_relay_state\":{\"state\":".as_bytes_vec();
    v.push(48 + state);
    push_all(&mut v, "}}}".as_bytes());
    proof {
        assert(v@ =~= spec_cmd_set_relay(state));
    }
    v
}

/// The relay command scoped to one child outlet, addressed by identifier.
pub open spec fn spec_cmd_set_relay_by_id(id: Seq<u8>, state: u8) -> Seq<u8> {
    "{\"context\":{\"child_ids\":[\"".spec_bytes() + spec_escape(id)
        + "\"]},\"system\":{\"set_relay_state\":{\"state\":".spec_bytes() + seq![(48 + state) as u8]
        + "}}}".spec_bytes()
}

/// Build the relay command scoped to the child with identifier `id`; the
/// target state is binary.
pub fn cmd_set_relay_by_id(id: &[u8], state: u8) -> (r: Vec<u8>)
    requires
        state <= 1,
    ensures
        r@ == spec_cmd_set_relay_by_id(id@, state),
{
    let mut v = "{\"context\":{\"child_ids\":[\"".as_bytes_vec();
    let e = escape(id);
    push_all(&mut v, e.as_slice());
    push_all(&mut v, "\"]},\"system\":{\"set_relay_state\":{\"state\":".as_bytes());
    v.push(48 + state);
    push_all(&mut v, "}}}".as_bytes());
    proof {
        assert(v@ =~= spec_cmd_set_relay_by_id(id@, state));
    }
    v
}

/// The rename command scoped to one child outlet, addressed by identifier.
pub open spec fn spec_cmd_set_alias(id: Seq<u8>, alias: Seq<u8>) -> Seq<u8> {
    "{\"context\":{\"child_ids\":[\"".spec_bytes() + spec_escape(id)
        + "\"]},\"system\":{\"set_dev_alias\":{\"alias\":\"".spec_bytes() + spec_escape(alias)
        + "\"}}}".spec_bytes()
}

/// Build the rename command for the child with identifier `id`.
pub fn cmd_set_alias(id: &[u8], alias: &[u8]) -> (r: Vec<u8>)
    ensures
        r@ == spec_cmd_set_alias(id@, alias@),
{
    let mut v = "{\"context\":{\"child_ids\":[\"".as_bytes_vec();
    let e = escape(id);
    push_all(&mut v, e.as_slice());
    push_all(&mut v, "\"]},\"system\":{\"set_dev_alias\":{\"alias\":\"".as_bytes());
    let a = escape(alias);
    push_all(&mut v, a.as_slice());
    push_all(&mut v, "\"}}}".as_bytes());
    proof {
        assert(v@ =~= spec_cmd_set_alias(id@, alias@));
    }
    v
}

/// Parse the clear text of a reply into the typed reply shape; a document
/// that does not match the reply grammar is a parse error.
pub fn deserialize(input: &Vec<u8>) -> (r: Result<KasaResp, KasaError>)
    ensures
        match r {
            Ok(v) => spec_parse_resp(input@) == Some(v@),
            Err(e) => spec_parse_resp(input@) is None && e == KasaError::ParseError,
        },
{
    match parse_resp(input.as_slice()) {
        Some(v) => Ok(v),
        None => Err(KasaError::ParseError),
    }
}

/// The state snapshot carried by an obfuscated status reply, when the
/// reply decodes, parses, and holds the status module with its snapshot.
pub open spec fn spec_sysinfo_of_reply(raw: Seq<u8>) -> Option<SysInfoV> {
    match spec_parse_resp(spec_decrypt(raw, CIPHER_SEED)) {
        Some(v) => match v.system {
            Some(sys) => sys.get_sysinfo,
            None => None,
        },
        None => None,
    }
}

/// Decode an obfuscated status reply and take its state snapshot; any
/// shape short of one is a parse error.
pub fn parse_sysinfo_reply(raw: &Vec<u8>) -> (r: Result<SysInfo, KasaError>)
    ensures
        match r {
            Ok(si) => spec_sysinfo_of_reply(raw@) == Some(si@),
            Err(e) => spec_sysinfo_of_reply(raw@) is None && e == KasaError::ParseError,
        },
{
    let clear = decrypt(raw);
    match parse_resp(clear.as_slice()) {
        Some(v) => match v.system {
            Some(sys) => match sys.get_sysinfo {
                Some(si) => Ok(si),
                None => Err(KasaError::ParseError),
            },
            None => Err(KasaError::ParseError),
        },
        None => Err(KasaError::ParseError),
    }
}

/// The metering snapshot carried by an obfuscated telemetry reply, when
/// the reply decodes, parses, and holds the telemetry module with its
/// snapshot.
pub open spec fn spec_realtime_of_reply(raw: Seq<u8>) -> Option<Realtime> {
    match spec_parse_resp(spec_decrypt(raw, CIPHER_SEED)) {
        Some(v) => match v.emeter {
            Some(em) => em.get_realtime,
            None => None,
        },
        None => None,
    }
}

/// Decode an obfuscated telemetry reply and take its metering snapshot;
/// any shape short of one is a parse error.
pub fn parse_realtime_reply(raw: &Vec<u8>) -> (r: Result<Realtime, KasaError>)
    ensures
        match r {
            Ok(rt) => spec_realtime_of_reply(raw@) == Some(rt),
            Err(e) => spec_realtime_of_reply(raw@) is None && e == KasaError::ParseError,
        },
{
    let clear = decrypt(raw);
    match parse_resp(clear.as_slice()) {
        Some(v) => match v.emeter {
            Some(em) => match em.get_realtime {
                Some(rt) => Ok(rt),
                None => Err(KasaError::ParseError),
            },
            None => Err(KasaError::ParseError),
        },
        None => Err(KasaError::ParseError),
    }
}

/// The two mutating actions whose replies carry an error code.
#[derive(Clone, Copy, Debug, PartialEq, Eq, Structural)]
pub enum SetAction {
    RelayState,
    DevAlias,
}

/// The wire name of a mutating action's module entry.
pub open spec fn spec_action_key(a: SetAction) -> Seq<u8> {
    match a {
        SetAction::RelayState => "set_relay_state".spec_bytes(),
        SetAction::DevAlias => "set_dev_alias".spec_bytes(),
    }
}

fn action_key(a: SetAction) -> (r: Vec<u8>)
    ensures
        r@ == spec_action_key(a),
{
    match a {
        SetAction::RelayState => "set_relay_state".as_bytes_vec(),
        SetAction::DevAlias => "set_dev_alias".as_bytes_vec(),
    }
}

/// The error code carried by an obfuscated reply to a mutating command,
/// when the reply decodes, parses, and reports that action.
pub open spec fn spec_set_err_of_reply(raw: Seq<u8>, a: SetAction) -> Option<i64> {
    spec_set_doc(spec_decrypt(raw, CIPHER_SEED), spec_action_key(a))
}

/// Interpret the obfuscated reply to a mutating command.  A zero error
/// code is the sole success signal; a non-zero code is the device refusing
/// the command; a reply without a code for the action is a parse error.
pub fn interpret_set_reply(raw: &Vec<u8>, action: SetAction) -> (r: Result<(), KasaError>)
    ensures
        match r {
            Ok(u) => spec_set_err_of_reply(raw@, action) == Some(0i64),
            Err(e) => (spec_set_err_of_reply(raw@, action) is None && e == KasaError::ParseError)
                || (spec_set_err_of_reply(raw@, action) is Some && spec_set_err_of_reply(
                raw@,
                action,
            ).unwrap() != 0 && e == KasaError::ProtocolError),
        },
{
    let clear = decrypt(raw);
    let key = action_key(action);
    match parse_set_doc(clear.as_slice(), key.as_slice()) {
        Some(code) => {
            if code == 0 {
                Ok(())
            } else {
                Err(KasaError::ProtocolError)
            }
        },
        None => Err(KasaError::ParseError),
    }
}

} // verus!
