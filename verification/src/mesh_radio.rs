use vstd::prelude::*;
use vstd::utf8::*;

use std::collections::HashMap;

use crate::ble::{has_service, AdvertisedPeripheral, MESHTASTIC_SERVICE_UUID};
use crate::crypto::SessionKey;
use crate::error::MeshGuardError;
use crate::protocol::{is_uuid_v4_text, spec_open_envelope, unix_timestamp_now, MeshMessage};
use crate::protocol::{MSG_TYPE_PAIR_ACCEPT, MSG_TYPE_TEXT};
use crate::text::{bytes_contain, has_infix, lowercase_chars, to_lowercase_str};

verus! {

broadcast use vstd::std_specs::hash::group_hash_axioms;

// ── Stream framing ──────────────────────────────────────────────

/// First magic byte of the Meshtastic stream header.
pub const FRAME_MAGIC_0: u8 = 0x94;

/// Second magic byte of the Meshtastic stream header.
pub const FRAME_MAGIC_1: u8 = 0xc3;

/// A frame of the Meshtastic stream protocol: two magic bytes, the length
/// (taken modulo 2^16, as a `u16` holds it) in big-endian order, then the data.
pub open spec fn spec_frame(data: Seq<u8>) -> Seq<u8> {
    let len = data.len() % 65536;
    seq![FRAME_MAGIC_0, FRAME_MAGIC_1, (len / 256) as u8, (len % 256) as u8] + data
}

/// A frame is the bytes 0x94 and 0xc3, the data's length modulo 2^16 as a
/// big-endian pair of bytes, and then the data itself.
pub proof fn lemma_frame_layout(data: Seq<u8>)
    ensures
        spec_frame(data).len() == data.len() + 4,
        spec_frame(data)[0] == 0x94u8,
        spec_frame(data)[1] == 0xc3u8,
        spec_frame(data)[2] as int * 256 + spec_frame(data)[3] as int == data.len() % 65536,
        spec_frame(data).skip(4) == data,
{
    assert(spec_frame(data).skip(4) =~= data);
}

/// What the radio link forwards of a chunk read from the stream: the data
/// after a stream header, or the chunk as it is where it holds no header.
pub open spec fn spec_unframe(buf: Seq<u8>) -> Seq<u8> {
    if buf.len() > 4 && buf[0] == FRAME_MAGIC_0 && buf[1] == FRAME_MAGIC_1 {
        buf.skip(4)
    } else {
        buf
    }
}

/// Meshtastic packet header: magic bytes + 2-byte length (big-endian).
pub fn format_packet(data: &[u8]) -> (r: Vec<u8>)
    ensures
        r@ == spec_frame(data@),
{
    let len: usize = data.len() % 65536;
    let mut buf: Vec<u8> = Vec::new();
    buf.push(FRAME_MAGIC_0);
    buf.push(FRAME_MAGIC_1);
    buf.push((len / 256) as u8);
    buf.push((len % 256) as u8);
    crate::text::push_bytes(&mut buf, data);
    assert(buf@ =~= spec_frame(data@));
    buf
}

/// Strips the stream header from a chunk written by the Meshtastic stream
/// API before it goes to the toRadio characteristic.
pub fn strip_frame_header(buf: &[u8]) -> (r: &[u8])
    ensures
        r@ == spec_unframe(buf@),
{
    if buf.len() > 4 && buf[0] == FRAME_MAGIC_0 && buf[1] == FRAME_MAGIC_1 {
        vstd::slice::slice_subrange(buf, 4, buf.len())
    } else {
        buf
    }
}

/// Stripping the header of a frame gives back its data, for any non-empty
/// data (an empty frame is only a header, which is passed on unchanged).
pub proof fn lemma_unframe_frame(data: Seq<u8>)
    requires
        data.len() > 0,
    ensures
        spec_unframe(spec_frame(data)) == data,
{
    assert(spec_frame(data).skip(4) =~= data);
}

/// What the stream side of a BLE link produced in one polling round.
pub enum ClientChunk {
    /// The stream API closed its end.
    Closed,
    /// A chunk of bytes to send to the radio.
    Data(Vec<u8>),
    /// Reading the stream failed.
    Failed,
    /// Nothing arrived within the polling interval.
    Idle,
}

/// What to do toward the radio's toRadio characteristic.
pub enum RadioWrite {
    /// End the link.
    Stop,
    /// Nothing to write this round.
    Skip,
    /// Write these bytes.
    Write(Vec<u8>),
}

/// Decides what a chunk from the stream API becomes on the radio: its
/// payload without the stream header.
pub fn on_client_chunk(chunk: ClientChunk) -> (r: RadioWrite)
    ensures
        match chunk {
            ClientChunk::Data(buf) => r matches RadioWrite::Write(w) && w@ == spec_unframe(buf@),
            ClientChunk::Idle => r is Skip,
            _ => r is Stop,
        },
{
    match chunk {
        ClientChunk::Data(buf) => {
            RadioWrite::Write(vstd::slice::slice_to_vec(strip_frame_header(buf.as_slice())))
        },
        ClientChunk::Idle => RadioWrite::Skip,
        _ => RadioWrite::Stop,
    }
}

/// How often a write to the radio is tried before the link gives up.
pub const BLE_WRITE_ATTEMPTS: u32 = 3;

/// What to do toward the stream API after reading the fromRadio characteristic.
pub enum ClientWrite {
    /// End the link.
    Stop,
    /// The radio had nothing; wait before polling again.
    Wait,
    /// Hand this framed packet to the stream API.
    Send(Vec<u8>),
}

/// Decides what a read of the fromRadio characteristic becomes on the
/// stream: a framed packet, a pause when the radio had nothing, or the end
/// of the link when the read failed (`None`).
pub fn on_radio_read(read: Option<Vec<u8>>) -> (r: ClientWrite)
    ensures
        match read {
            Some(data) => if data@.len() > 0 {
                r matches ClientWrite::Send(f) && f@ == spec_frame(data@)
            } else {
                r is Wait
            },
            None => r is Stop,
        },
{
    match read {
        Some(data) => {
            if data.len() > 0 {
                ClientWrite::Send(format_packet(data.as_slice()))
            } else {
                ClientWrite::Wait
            }
        },
        None => ClientWrite::Stop,
    }
}

/// The frames handed to the stream API for a sequence of radio reads:
/// every non-empty read, framed, in read order.
pub open spec fn framed_reads(reads: Seq<Seq<u8>>) -> Seq<Seq<u8>>
    decreases reads.len(),
{
    if reads.len() == 0 {
        Seq::empty()
    } else {
        let rest = framed_reads(reads.drop_last());
        if reads.last().len() > 0 {
            rest.push(spec_frame(reads.last()))
        } else {
            rest
        }
    }
}

/// The frames handed to the stream API are the non-empty reads, each
/// framed, in read order.
pub proof fn lemma_framed_reads_in_order(reads: Seq<Seq<u8>>)
    ensures
        framed_reads(reads) == reads.filter(|d: Seq<u8>| d.len() > 0).map_values(
            |d: Seq<u8>| spec_frame(d),
        ),
    decreases reads.len(),
{
    reveal(Seq::filter);
    let nonempty = |d: Seq<u8>| d.len() > 0;
    let frame = |d: Seq<u8>| spec_frame(d);
    if reads.len() > 0 {
        lemma_framed_reads_in_order(reads.drop_last());
        let rest = reads.drop_last().filter(nonempty);
        if reads.last().len() > 0 {
            assert(rest.push(reads.last()).map_values(frame) =~= rest.map_values(frame).push(
                spec_frame(reads.last()),
            ));
        }
    } else {
        assert(reads.filter(nonempty).map_values(frame) =~= Seq::empty());
    }
}

/// The radio-to-stream half of a BLE link: the successful reads of the
/// fromRadio characteristic so far, and the frames handed to the stream API.
pub struct RadioToClient {
    pub reads: Ghost<Seq<Seq<u8>>>,
    pub sent: Ghost<Seq<Seq<u8>>>,
    pub stopped: bool,
}

impl RadioToClient {
    /// What every step keeps: the frames sent are exactly the framed
    /// non-empty reads, in order.
    pub open spec fn wf(&self) -> bool {
        self.sent@ == framed_reads(self.reads@)
    }

    /// A link that has read and sent nothing.
    pub fn new() -> (r: Self)
        ensures
            r.wf(),
            r.reads@ == Seq::<Seq<u8>>::empty(),
            !r.stopped,
    {
        RadioToClient { reads: Ghost(Seq::empty()), sent: Ghost(Seq::empty()), stopped: false }
    }

    /// Takes the outcome of one read of the fromRadio characteristic (`None`
    /// when it failed) and says what to hand to the stream API.
    pub fn on_radio_read(&mut self, read: Option<Vec<u8>>) -> (r: ClientWrite)
        requires
            old(self).wf(),
            !old(self).stopped,
        ensures
            final(self).wf(),
            match read {
                Some(d) => {
                    &&& !final(self).stopped
                    &&& final(self).reads@ == old(self).reads@.push(d@)
                    &&& if d@.len() > 0 {
                        r matches ClientWrite::Send(f) && f@ == spec_frame(d@) && final(self).sent@
                            == old(self).sent@.push(f@)
                    } else {
                        r is Wait && final(self).sent@ == old(self).sent@
                    }
                },
                None => {
                    &&& final(self).stopped
                    &&& r is Stop
                    &&& final(self).reads@ == old(self).reads@
                    &&& final(self).sent@ == old(self).sent@
                },
            },
    {
        let ghost data = match read {
            Some(ref d) => Some(d@),
            None => None,
        };
        let failed = read.is_none();
        let r = on_radio_read(read);
        if failed {
            self.stopped = true;
        } else {
            proof {
                let d = data.unwrap();
                let reads = self.reads@.push(d);
                assert(reads.drop_last() =~= self.reads@);
                self.reads = Ghost(reads);
                if let ClientWrite::Send(ref f) = r {
                    self.sent = Ghost(self.sent@.push(f@));
                }
            }
        }
        r
    }
}

/// The payloads written to the toRadio characteristic for a sequence of
/// chunks from the stream API: each chunk without its stream header.
pub open spec fn unframed_chunks(chunks: Seq<Seq<u8>>) -> Seq<Seq<u8>> {
    chunks.map_values(|c: Seq<u8>| spec_unframe(c))
}

/// What became of one attempt to write a chunk to the radio.
pub enum WriteOutcome {
    /// The radio took the chunk.
    Done,
    /// Try again with these bytes.
    Retry(Vec<u8>),
    /// The last allowed attempt failed: end the link.
    GiveUp,
}

/// The stream-to-radio half of a BLE link: the data chunks received from
/// the stream API, the payloads the radio has taken, and the payload being
/// written with the attempts made on it.
pub struct ClientToRadio {
    pub chunks: Ghost<Seq<Seq<u8>>>,
    pub written: Ghost<Seq<Seq<u8>>>,
    pub pending: Option<Vec<u8>>,
    pub attempts: u32,
    pub stopped: bool,
}

impl ClientToRadio {
    /// What every step keeps: every chunk but the one being written has
    /// been written without its header, in order, and a chunk is tried at
    /// most `BLE_WRITE_ATTEMPTS` times.
    pub open spec fn wf(&self) -> bool {
        match self.pending {
            None => self.attempts == 0 && self.written@ == unframed_chunks(self.chunks@),
            Some(p) => {
                &&& self.chunks@.len() > 0
                &&& self.written@ == unframed_chunks(self.chunks@.drop_last())
                &&& p@ == spec_unframe(self.chunks@.last())
                &&& self.attempts < BLE_WRITE_ATTEMPTS
            },
        }
    }

    /// A link that has received and written nothing.
    pub fn new() -> (r: Self)
        ensures
            r.wf(),
            r.chunks@ == Seq::<Seq<u8>>::empty(),
            r.pending is None,
            !r.stopped,
    {
        assert(unframed_chunks(Seq::empty()) =~= Seq::empty());
        ClientToRadio {
            chunks: Ghost(Seq::empty()),
            written: Ghost(Seq::empty()),
            pending: None,
            attempts: 0,
            stopped: false,
        }
    }

    /// Takes what the stream API produced in one polling round and says
    /// what to write to the radio.
    pub fn on_client_chunk(&mut self, chunk: ClientChunk) -> (r: RadioWrite)
        requires
            old(self).wf(),
            !old(self).stopped,
            old(self).pending is None,
        ensures
            final(self).wf(),
            match chunk {
                ClientChunk::Data(buf) => {
                    &&& r matches RadioWrite::Write(w) && w@ == spec_unframe(buf@)
                        && (final(self).pending matches Some(p) && p@ == w@)
                    &&& final(self).chunks@ == old(self).chunks@.push(buf@)
                    &&& final(self).written@ == old(self).written@
                    &&& !final(self).stopped
                },
                ClientChunk::Idle => {
                    &&& r is Skip
                    &&& final(self).chunks@ == old(self).chunks@
                    &&& final(self).written@ == old(self).written@
                    &&& final(self).pending is None
                    &&& !final(self).stopped
                },
                _ => {
                    &&& r is Stop
                    &&& final(self).stopped
                    &&& final(self).chunks@ == old(self).chunks@
                    &&& final(self).written@ == old(self).written@
                },
            },
    {
        let ghost buf = match chunk {
            ClientChunk::Data(ref b) => Some(b@),
            _ => None,
        };
        match on_client_chunk(chunk) {
            RadioWrite::Write(payload) => {
                let copy = vstd::slice::slice_to_vec(payload.as_slice());
                proof {
                    let b = buf.unwrap();
                    let chunks = self.chunks@.push(b);
                    assert(chunks.drop_last() =~= self.chunks@);
                    self.chunks = Ghost(chunks);
                }
                self.pending = Some(copy);
                RadioWrite::Write(payload)
            },
            RadioWrite::Skip => RadioWrite::Skip,
            RadioWrite::Stop => {
                self.stopped = true;
                RadioWrite::Stop
            },
        }
    }

    /// Takes the outcome of an attempt to write the pending payload: done,
    /// try again, or give up after the last allowed attempt.
    pub fn on_write_result(&mut self, ok: bool) -> (r: WriteOutcome)
        requires
            old(self).wf(),
            !old(self).stopped,
            old(self).pending is Some,
        ensures
            final(self).wf(),
            final(self).chunks@ == old(self).chunks@,
            ok ==> r is Done && final(self).pending is None && !final(self).stopped
                && final(self).written@ == old(self).written@.push(old(self).pending->0@),
            !ok && old(self).attempts + 1 < BLE_WRITE_ATTEMPTS ==> (r matches WriteOutcome::Retry(b)
                && b@ == old(self).pending->0@ && final(self).pending == old(self).pending
                && final(self).attempts == old(self).attempts + 1 && !final(self).stopped
                && final(self).written@ == old(self).written@),
            !ok && old(self).attempts + 1 >= BLE_WRITE_ATTEMPTS ==> r is GiveUp
                && final(self).stopped && final(self).written@ == old(self).written@,
    {
        let payload = match self.pending.take() {
            Some(p) => p,
            None => {
                return WriteOutcome::GiveUp;
            },
        };
        if ok {
            proof {
                let old_chunks = self.chunks@;
                assert(unframed_chunks(old_chunks) =~= unframed_chunks(old_chunks.drop_last()).push(
                    spec_unframe(old_chunks.last()),
                ));
                self.written = Ghost(self.written@.push(payload@));
            }
            self.attempts = 0;
            WriteOutcome::Done
        } else if self.attempts + 1 < BLE_WRITE_ATTEMPTS {
            self.attempts = self.attempts + 1;
            let again = vstd::slice::slice_to_vec(payload.as_slice());
            self.pending = Some(payload);
            WriteOutcome::Retry(again)
        } else {
            self.pending = Some(payload);
            self.stopped = true;
            WriteOutcome::GiveUp
        }
    }
}

/// What to do about the BLE bond before connecting.
pub enum BondAction {
    /// The device is bonded and connected: use the bond as it is.
    UseExisting,
    /// The device is bonded but unreachable: the bond is stale; remove it and pair again.
    ReplaceStale,
    /// The device is not bonded: pair with it.
    PairNew,
}

/// Decides what to do about the bond from what BlueZ reports of the device.
pub fn bond_action(is_paired: bool, is_connected: bool) -> (r: BondAction)
    ensures
        !is_paired ==> r is PairNew,
        is_paired && is_connected ==> r is UseExisting,
        is_paired && !is_connected ==> r is ReplaceStale,
{
    if !is_paired {
        BondAction::PairNew
    } else if is_connected {
        BondAction::UseExisting
    } else {
        BondAction::ReplaceStale
    }
}

// ── Device discovery ────────────────────────────────────────────

/// Known name fragments of devices that run Meshtastic firmware.
pub open spec fn mesh_name_hint(i: int) -> Seq<char> {
    if i == 0 { "meshtastic"@ }
    else if i == 1 { "sensecap"@ }
    else if i == 2 { "t1000"@ }
    else if i == 3 { "rak"@ }
    else if i == 4 { "heltec"@ }
    else if i == 5 { "tbeam"@ }
    else if i == 6 { "t-beam"@ }
    else if i == 7 { "tlora"@ }
    else if i == 8 { "t-lora"@ }
    else if i == 9 { "station-g"@ }
    else if i == 10 { "nano-g"@ }
    else if i == 11 { "wio-tracker"@ }
    else if i == 12 { "trackerd"@ }
    else { "meshcore"@ }
}

/// Number of name fragments in `mesh_name_hint`.
pub const MESH_NAME_HINTS: usize = 14;

fn mesh_name_hint_str(i: usize) -> (r: &'static str)
    requires
        i < MESH_NAME_HINTS,
    ensures
        r@ == mesh_name_hint(i as int),
{
    if i == 0 { "meshtastic" }
    else if i == 1 { "sensecap" }
    else if i == 2 { "t1000" }
    else if i == 3 { "rak" }
    else if i == 4 { "heltec" }
    else if i == 5 { "tbeam" }
    else if i == 6 { "t-beam" }
    else if i == 7 { "tlora" }
    else if i == 8 { "t-lora" }
    else if i == 9 { "station-g" }
    else if i == 10 { "nano-g" }
    else if i == 11 { "wio-tracker" }
    else if i == 12 { "trackerd" }
    else { "meshcore" }
}

/// A device runs Meshtastic firmware if it advertises the Meshtastic
/// service, or if its lowercased name contains a known fragment.
pub open spec fn spec_is_meshtastic_device(name: Seq<char>, services: Seq<u128>) -> bool {
    services.contains(MESHTASTIC_SERVICE_UUID) || exists|i: int|
        0 <= i < MESH_NAME_HINTS && #[trigger] has_infix(
            encode_utf8(lowercase_chars(name)),
            encode_utf8(mesh_name_hint(i)),
        )
}

/// The name fragments of Meshtastic hardware that the connection scan knows.
pub open spec fn meshtastic_name_fragments() -> Seq<Seq<char>> {
    seq![
        "meshtastic"@, "sensecap"@, "t1000"@, "rak"@, "heltec"@, "tbeam"@, "t-beam"@,
        "tlora"@, "t-lora"@, "station-g"@, "nano-g"@, "wio-tracker"@, "trackerd"@,
        "meshcore"@,
    ]
}

/// The connection scan takes a device for Meshtastic exactly when it
/// advertises the Meshtastic service or its lowercased name contains one of
/// the known fragments.
pub proof fn lemma_meshtastic_device_by_fragments(name: Seq<char>, services: Seq<u128>)
    ensures
        spec_is_meshtastic_device(name, services) <==> (services.contains(MESHTASTIC_SERVICE_UUID)
            || exists|f: Seq<char>|
            #[trigger] meshtastic_name_fragments().contains(f) && has_infix(
                encode_utf8(lowercase_chars(name)),
                encode_utf8(f),
            )),
{
    let frags = meshtastic_name_fragments();
    assert(frags.len() == MESH_NAME_HINTS);
    assert forall|i: int| 0 <= i < MESH_NAME_HINTS implies #[trigger] mesh_name_hint(i) == frags[i] by {
        if i == 0 { assert(mesh_name_hint(i) == frags[0]); }
        else if i == 1 { assert(mesh_name_hint(i) == frags[1]); }
        else if i == 2 { assert(mesh_name_hint(i) == frags[2]); }
        else if i == 3 { assert(mesh_name_hint(i) == frags[3]); }
        else if i == 4 { assert(mesh_name_hint(i) == frags[4]); }
        else if i == 5 { assert(mesh_name_hint(i) == frags[5]); }
        else if i == 6 { assert(mesh_name_hint(i) == frags[6]); }
        else if i == 7 { assert(mesh_name_hint(i) == frags[7]); }
        else if i == 8 { assert(mesh_name_hint(i) == frags[8]); }
        else if i == 9 { assert(mesh_name_hint(i) == frags[9]); }
        else if i == 10 { assert(mesh_name_hint(i) == frags[10]); }
        else if i == 11 { assert(mesh_name_hint(i) == frags[11]); }
        else if i == 12 { assert(mesh_name_hint(i) == frags[12]); }
        else { assert(mesh_name_hint(i) == frags[13]); }
    }
    let lower = encode_utf8(lowercase_chars(name));
    if exists|i: int|
        0 <= i < MESH_NAME_HINTS && #[trigger] has_infix(lower, encode_utf8(mesh_name_hint(i))) {
        let i = choose|i: int|
            0 <= i < MESH_NAME_HINTS && #[trigger] has_infix(lower, encode_utf8(mesh_name_hint(i)));
        assert(frags.contains(frags[i]));
    }
    if exists|f: Seq<char>| #[trigger] frags.contains(f) && has_infix(lower, encode_utf8(f)) {
        let f = choose|f: Seq<char>| #[trigger] frags.contains(f) && has_infix(lower, encode_utf8(f));
        let i = choose|i: int| 0 <= i < frags.len() && frags[i] == f;
        assert(has_infix(lower, encode_utf8(mesh_name_hint(i))));
    }
}

/// Decides `spec_is_meshtastic_device`.
pub fn is_meshtastic_device(name: &str, services: &[u128]) -> (r: bool)
    ensures
        r == spec_is_meshtastic_device(name@, services@),
{
    if has_service(services, MESHTASTIC_SERVICE_UUID) {
        return true;
    }
    let lower = to_lowercase_str(name);
    let bytes = lower.as_str().as_bytes();
    let mut i: usize = 0;
    while i < MESH_NAME_HINTS
        invariant
            bytes@ == encode_utf8(lowercase_chars(name@)),
            i <= MESH_NAME_HINTS,
            forall|j: int| 0 <= j < i ==> !#[trigger] has_infix(bytes@, encode_utf8(mesh_name_hint(j))),
        decreases MESH_NAME_HINTS - i,
    {
        if bytes_contain(bytes, mesh_name_hint_str(i).as_bytes()) {
            return true;
        }
        i = i + 1;
    }
    false
}

/// A Meshtastic device found by a BLE scan.
#[derive(Debug, Clone)]
pub struct ScannedBleDevice {
    pub name: String,
    pub address: String,
}

impl View for ScannedBleDevice {
    type V = (Seq<char>, Seq<char>);

    open spec fn view(&self) -> Self::V {
        (self.name@, self.address@)
    }
}

/// What the connection scan lists for one peripheral: its name and address,
/// if it has a non-empty name and runs Meshtastic firmware.
pub open spec fn spec_listed_device(p: AdvertisedPeripheral) -> Option<(Seq<char>, Seq<char>)> {
    match p.local_name {
        Some(n) => if n@.len() > 0 && spec_is_meshtastic_device(n@, p.services@) {
            Some((n@, p.address@))
        } else {
            None
        },
        None => None,
    }
}

/// The Meshtastic devices among the peripherals of a scan, in scan order.
pub open spec fn spec_listed_devices(ps: Seq<AdvertisedPeripheral>) -> Seq<(Seq<char>, Seq<char>)> {
    ps.filter_map(|p: AdvertisedPeripheral| spec_listed_device(p))
}

/// Keeps the named Meshtastic devices of a scan.
pub fn select_meshtastic_devices(peripherals: &[AdvertisedPeripheral]) -> (r: Vec<
    ScannedBleDevice,
>)
    ensures
        r@.map_values(|d: ScannedBleDevice| d@) == spec_listed_devices(peripherals@),
{
    let mut found: Vec<ScannedBleDevice> = Vec::new();
    let mut i: usize = 0;
    while i < peripherals.len()
        invariant
            i <= peripherals@.len(),
            found@.map_values(|d: ScannedBleDevice| d@) == spec_listed_devices(
                peripherals@.take(i as int),
            ),
        decreases peripherals@.len() - i,
    {
        let ghost before = found@.map_values(|d: ScannedBleDevice| d@);
        let p = &peripherals[i];
        proof {
            let t = peripherals@.take(i + 1);
            assert(t.drop_last() =~= peripherals@.take(i as int));
            assert(t.last() == peripherals@[i as int]);
        }
        match &p.local_name {
            Some(n) => {
                if !n.as_str().is_empty() && is_meshtastic_device(n.as_str(), p.services.as_slice()) {
                    found.push(ScannedBleDevice { name: n.clone(), address: p.address.clone() });
                    assert(found@.map_values(|d: ScannedBleDevice| d@) =~= before + seq![
                        (n@, p.address@),
                    ]);
                } else {
                    assert(found@.map_values(|d: ScannedBleDevice| d@) =~= before);
                }
            },
            None => {
                assert(found@.map_values(|d: ScannedBleDevice| d@) =~= before);
            },
        }
        i = i + 1;
    }
    assert(peripherals@.take(peripherals@.len() as int) =~= peripherals@);
    found
}

/// A serial port that a radio may be attached to.
#[derive(Debug, Clone)]
pub struct SerialPortInfo {
    pub name: String,
}

/// One entry per port name, in the same order.
pub fn serial_port_infos(names: Vec<String>) -> (r: Vec<SerialPortInfo>)
    ensures
        r@.len() == names@.len(),
        forall|i: int| 0 <= i < names@.len() ==> #[trigger] r@[i].name == names@[i],
{
    let mut rest = names;
    let mut out: Vec<SerialPortInfo> = Vec::new();
    let ghost orig = rest@;
    while rest.len() > 0
        invariant
            out@.len() + rest@.len() == orig.len(),
            rest@ == orig.skip(out@.len() as int),
            forall|i: int| 0 <= i < out@.len() ==> #[trigger] out@[i].name == orig[i],
        decreases rest@.len(),
    {
        let ghost k = out@.len() as int;
        assert(orig.skip(k)[0] == orig[k]);
        let name = rest.remove(0);
        out.push(SerialPortInfo { name });
        assert(rest@ =~= orig.skip(k + 1));
    }
    out
}

// ── Packet router ───────────────────────────────────────────────

/// Routing state handed to the Meshtastic stream API: our own node number.
pub struct MeshGuardRouter {
    node_id: u32,
}

impl MeshGuardRouter {
    /// The node number that packets are sent from.
    pub closed spec fn spec_node_id(&self) -> u32 {
        self.node_id
    }

    pub fn new(node_id: u32) -> (r: Self)
        ensures
            r.spec_node_id() == node_id,
    {
        Self { node_id }
    }

    /// The node number that packets are sent from.
    pub fn source_node_id(&self) -> (r: u32)
        ensures
            r == self.spec_node_id(),
    {
        self.node_id
    }
}

/// An error raised by the packet router.
#[derive(Debug)]
pub struct RouterError(String);

impl RouterError {
    /// An error with the given text.
    pub fn new(text: String) -> (r: Self)
        ensures
            r.spec_text() == text@,
    {
        RouterError(text)
    }

    /// The text of the error.
    pub closed spec fn spec_text(&self) -> Seq<char> {
        self.0@
    }

    /// The text of the error.
    pub fn message(&self) -> (r: &str)
        ensures
            r@ == self.spec_text(),
    {
        self.0.as_str()
    }
}

// ── Configuration handshake ─────────────────────────────────────

/// What the configuration handshake reads from one packet of the radio.
pub enum ConfigPacket<N> {
    /// Our own node number.
    MyInfo { my_node_num: u32 },
    /// A node of the mesh, with the long name of its user if it has one,
    /// and the record kept for it.
    NodeInfo { num: u32, long_name: Option<String>, node: N },
    /// The radio has sent its whole configuration.
    ConfigComplete,
    /// Any other packet.
    Other,
}

/// What the configuration handshake has gathered so far.
pub struct ConfigCollector<N> {
    pub found_node_num: Option<u32>,
    pub found_device_name: Option<String>,
    pub nodes: HashMap<u32, N>,
    pub packet_count: u32,
}

impl<N> ConfigCollector<N> {
    /// Nothing gathered yet.
    pub fn new() -> (r: Self)
        ensures
            r.found_node_num is None,
            r.found_device_name is None,
            r.nodes@ == Map::<u32, N>::empty(),
            r.packet_count == 0,
    {
        ConfigCollector {
            found_node_num: None,
            found_device_name: None,
            nodes: HashMap::new(),
            packet_count: 0,
        }
    }

    /// How long to wait for the next packet: longer for the first one.
    pub fn timeout_secs(&self) -> (r: u64)
        ensures
            r == (if self.packet_count == 0 {
                30u64
            } else {
                10u64
            }),
    {
        if self.packet_count == 0 {
            30
        } else {
            10
        }
    }

    /// Records a packet received during the handshake (`None` for a packet
    /// without payload) and says whether the configuration is complete.
    pub fn on_packet(&mut self, packet: Option<ConfigPacket<N>>) -> (done: bool)
        requires
            old(self).packet_count < u32::MAX,
        ensures
            final(self).packet_count == old(self).packet_count + 1,
            done == (packet matches Some(ConfigPacket::ConfigComplete)),
            match packet {
                Some(ConfigPacket::MyInfo { my_node_num }) => {
                    &&& final(self).found_node_num == Some(my_node_num)
                    &&& final(self).found_device_name == old(self).found_device_name
                    &&& final(self).nodes@ == old(self).nodes@
                },
                Some(ConfigPacket::NodeInfo { num, long_name, node }) => {
                    &&& final(self).found_node_num == old(self).found_node_num
                    &&& final(self).found_device_name == (if old(self).found_node_num == Some(num)
                        && long_name is Some {
                        long_name
                    } else {
                        old(self).found_device_name
                    })
                    &&& final(self).nodes@ == old(self).nodes@.insert(num, node)
                },
                _ => {
                    &&& final(self).found_node_num == old(self).found_node_num
                    &&& final(self).found_device_name == old(self).found_device_name
                    &&& final(self).nodes@ == old(self).nodes@
                },
            },
    {
        self.packet_count = self.packet_count + 1;
        match packet {
            Some(ConfigPacket::MyInfo { my_node_num }) => {
                self.found_node_num = Some(my_node_num);
                false
            },
            Some(ConfigPacket::NodeInfo { num, long_name, node }) => {
                let is_mine = match self.found_node_num {
                    Some(mine) => mine == num,
                    None => false,
                };
                if is_mine && long_name.is_some() {
                    self.found_device_name = long_name;
                }
                self.nodes.insert(num, node);
                false
            },
            Some(ConfigPacket::ConfigComplete) => true,
            _ => false,
        }
    }

    /// Ends the handshake: our node number (which the radio must have
    /// reported), our device name, and the other nodes of the mesh.
    pub fn finish(self) -> (r: Result<(u32, Option<String>, HashMap<u32, N>), MeshGuardError>)
        ensures
            match self.found_node_num {
                Some(n) => r matches Ok((num, name, nodes)) && num == n && name
                    == self.found_device_name && nodes@ == self.nodes@.remove(n),
                None => r matches Err(MeshGuardError::MeshRadio(m)) && m@
                    == "Radio did not report MyNodeInfo"@,
            },
    {
        let ConfigCollector { found_node_num, found_device_name, nodes, packet_count: _ } = self;
        match found_node_num {
            Some(node_num) => {
                let mut nodes = nodes;
                nodes.remove(&node_num);
                Ok((node_num, found_device_name, nodes))
            },
            None => Err(
                MeshGuardError::MeshRadio(String::from_str("Radio did not report MyNodeInfo")),
            ),
        }
    }
}

/// Whether the listener records a node announcement: every node but our own.
pub fn records_node(num: u32, my_node_num: u32) -> (r: bool)
    ensures
        r == (num != my_node_num),
{
    num != my_node_num
}

/// Records a node announcement heard by the listener: every node but our
/// own enters the node table, replacing what was known of it. Says whether
/// the table changed, so the front end can be told.
pub fn record_node_info<N>(nodes: &mut HashMap<u32, N>, my_node_num: u32, num: u32, node: N) -> (updated: bool)
    ensures
        updated == (num != my_node_num),
        final(nodes)@ == (if updated {
            old(nodes)@.insert(num, node)
        } else {
            old(nodes)@
        }),
{
    if records_node(num, my_node_num) {
        nodes.insert(num, node);
        true
    } else {
        false
    }
}

/// A notice the radio listener gives the front end about its own state.
pub enum ListenerNotice {
    /// The node table changed.
    NodesUpdated,
    /// The radio went away: the listener has ended.
    Disconnected,
}

/// The radio listener over its life: our node number, whether it has
/// ended, and the notices it has given so far.
pub struct NodeListener {
    pub my_node_num: u32,
    pub ended: bool,
    pub notices: Ghost<Seq<ListenerNotice>>,
}

impl NodeListener {
    /// What every step keeps: the disconnect notice is given once the
    /// listener has ended, and then only once and after every other notice.
    pub open spec fn wf(&self) -> bool {
        &&& self.ended ==> self.notices@.len() > 0
        &&& forall|i: int|
            0 <= i < self.notices@.len() ==> (#[trigger] self.notices@[i] is Disconnected <==> (
            self.ended && i == self.notices@.len() - 1))
    }

    /// A listener for the radio whose node number is `my_node_num`, before
    /// it has heard anything.
    pub fn new(my_node_num: u32) -> (r: Self)
        ensures
            r.wf(),
            r.my_node_num == my_node_num,
            !r.ended,
            r.notices@ == Seq::<ListenerNotice>::empty(),
    {
        NodeListener { my_node_num, ended: false, notices: Ghost(Seq::empty()) }
    }

    /// Takes a node announcement: every node but our own enters the node
    /// table, replacing what was known of it, and the front end is told
    /// that the table changed. Says whether it did.
    pub fn on_node_info<N>(&mut self, nodes: &mut HashMap<u32, N>, num: u32, node: N) -> (updated: bool)
        requires
            old(self).wf(),
            !old(self).ended,
        ensures
            final(self).wf(),
            !final(self).ended,
            final(self).my_node_num == old(self).my_node_num,
            updated == (num != old(self).my_node_num),
            final(nodes)@ == (if updated {
                old(nodes)@.insert(num, node)
            } else {
                old(nodes)@
            }),
            final(self).notices@ == (if updated {
                old(self).notices@.push(ListenerNotice::NodesUpdated)
            } else {
                old(self).notices@
            }),
    {
        let updated = record_node_info(nodes, self.my_node_num, num, node);
        if updated {
            proof {
                self.notices = Ghost(self.notices@.push(ListenerNotice::NodesUpdated));
            }
        }
        updated
    }

    /// Takes the end of the radio's packet stream. Says whether to tell the
    /// front end that the radio disconnected: the first time only.
    pub fn on_end(&mut self) -> (notify: bool)
        requires
            old(self).wf(),
        ensures
            final(self).wf(),
            final(self).ended,
            final(self).my_node_num == old(self).my_node_num,
            notify == !old(self).ended,
            final(self).notices@ == (if notify {
                old(self).notices@.push(ListenerNotice::Disconnected)
            } else {
                old(self).notices@
            }),
    {
        if self.ended {
            false
        } else {
            self.ended = true;
            proof {
                self.notices = Ghost(self.notices@.push(ListenerNotice::Disconnected));
            }
            true
        }
    }
}

/// Once the listener has ended, the disconnect notice is its last notice
/// and it was given exactly once.
pub proof fn lemma_disconnect_last_and_once(l: NodeListener)
    requires
        l.wf(),
        l.ended,
    ensures
        l.notices@.last() is Disconnected,
        forall|i: int| 0 <= i < l.notices@.len() - 1 ==> #[trigger] l.notices@[i] is NodesUpdated,
{
    assert(l.notices@[l.notices@.len() - 1] is Disconnected);
    assert forall|i: int| 0 <= i < l.notices@.len() - 1 implies #[trigger] l.notices@[i] is NodesUpdated by {
        assert(!(l.notices@[i] is Disconnected));
    }
}

/// A node counts as online if it was heard within the last two hours.
pub open spec fn spec_node_is_online(last_heard: u32, now: i64) -> bool {
    last_heard > 0 && now - last_heard < 7200
}

/// Decides `spec_node_is_online`.
pub fn node_is_online(last_heard: u32, now: i64) -> (r: bool)
    ensures
        r == spec_node_is_online(last_heard, now),
{
    last_heard > 0 && (now as i128) - (last_heard as i128) < 7200
}

// ── Incoming packets ────────────────────────────────────────────

/// Port number of Meshtastic's private applications (`PortNum::PrivateApp`).
pub const PRIVATE_APP_PORT: i32 = 256;

/// The payload of a mesh packet as the radio hands it over.
pub enum RadioPayload {
    /// Decoded by the radio: the port number and the application bytes.
    Decoded { portnum: i32, payload: Vec<u8> },
    /// Still encrypted with a channel key the radio lacks.
    Encrypted { len: usize },
    /// No payload at all.
    Absent,
}

/// A text message from a paired peer, for the front end.
#[derive(Debug, Clone)]
pub struct IncomingMessageEvent {
    pub from_node: u32,
    pub from_name: String,
    pub text: String,
    pub timestamp: i64,
    pub message_id: String,
}

/// A pairing request or acceptance, for the front end.
#[derive(Debug, Clone)]
pub struct PairRequestEvent {
    pub from_node: u32,
    pub from_name: String,
    pub timestamp: i64,
}

/// What to do with a packet that arrived from the mesh.
pub enum IncomingAction {
    /// Not a MeshGuard packet.
    Ignore,
    /// A text message from a paired peer.
    Deliver(IncomingMessageEvent),
    /// The peer accepted our pairing request.
    PairAccepted(PairRequestEvent),
    /// A pairing request from a peer whose key we already hold.
    AlreadyPaired,
    /// A payload that no session key opens: kept as a pending pairing
    /// request until the user enters the passphrase.
    PendingPairRequest { from_node: u32, payload: Vec<u8>, event: PairRequestEvent },
}

/// Whether a payload was decoded on Meshtastic's private-application port,
/// number 256, the only port MeshGuard uses.
pub open spec fn on_private_app_port(p: RadioPayload) -> bool {
    match p {
        RadioPayload::Decoded { portnum, .. } => portnum == 256,
        _ => false,
    }
}

/// The application bytes of a packet for MeshGuard: decoded, on the
/// private-application port, and not empty.
pub open spec fn spec_private_app_payload(p: RadioPayload) -> Option<Seq<u8>> {
    match p {
        RadioPayload::Decoded { portnum, payload } => if portnum == PRIVATE_APP_PORT
            && payload@.len() > 0 {
            Some(payload@)
        } else {
            None
        },
        _ => None,
    }
}

/// Only a non-empty payload decoded on the private-application port is a
/// MeshGuard payload, and then its bytes are exactly the payload's.
pub proof fn lemma_private_app_payload_only_on_its_port(p: RadioPayload)
    ensures
        spec_private_app_payload(p) is Some <==> (on_private_app_port(p) && (p matches RadioPayload::Decoded { payload, .. } && payload@.len() > 0)),
        spec_private_app_payload(p) matches Some(b) ==> (p matches RadioPayload::Decoded { payload, .. } && b == payload@),
{
}

/// Decides what to do with an incoming packet from `from_node`, given the
/// outcome of opening its payload with the peer's session key (`None` when
/// no key was tried) and the current time.
pub fn incoming_action(
    from_node: u32,
    payload: &RadioPayload,
    opened: Option<Result<MeshMessage, MeshGuardError>>,
    now: i64,
) -> (r: IncomingAction)
    ensures
        !on_private_app_port(*payload) ==> r is Ignore,
        match spec_private_app_payload(*payload) {
            None => r is Ignore,
            Some(bytes) => match opened {
                Some(Ok(MeshMessage::Text { id, text, timestamp })) => r matches IncomingAction::Deliver(e)
                    && e.from_node == from_node && e.from_name@.len() == 0 && e.text == text
                    && e.timestamp == timestamp && e.message_id == id,
                Some(Ok(MeshMessage::PairAccept { responder_name, .. })) => r matches IncomingAction::PairAccepted(e)
                    && e.from_node == from_node && e.from_name == responder_name && e.timestamp
                    == now,
                Some(Ok(MeshMessage::PairRequest { .. })) => r is AlreadyPaired,
                _ => r matches IncomingAction::PendingPairRequest { from_node: f, payload: q, event: e }
                    && f == from_node && q@ == bytes && e.from_node == from_node
                    && e.from_name@.len() == 0 && e.timestamp == now,
            },
        },
{
    let bytes = match payload {
        RadioPayload::Decoded { portnum, payload } => {
            if *portnum != PRIVATE_APP_PORT || payload.len() == 0 {
                return IncomingAction::Ignore;
            }
            payload
        },
        _ => {
            return IncomingAction::Ignore;
        },
    };
    match opened {
        Some(Ok(MeshMessage::Text { id, text, timestamp })) => IncomingAction::Deliver(
            IncomingMessageEvent {
                from_node,
                from_name: String::new(),
                text,
                timestamp,
                message_id: id,
            },
        ),
        Some(Ok(MeshMessage::PairAccept { responder_name, .. })) => IncomingAction::PairAccepted(
            PairRequestEvent { from_node, from_name: responder_name, timestamp: now },
        ),
        Some(Ok(MeshMessage::PairRequest { .. })) => IncomingAction::AlreadyPaired,
        _ => IncomingAction::PendingPairRequest {
            from_node,
            payload: vstd::slice::slice_to_vec(bytes.as_slice()),
            event: PairRequestEvent { from_node, from_name: String::new(), timestamp: now },
        },
    }
}

/// What opening a MeshGuard payload with the peer's key yields: the type
/// and text inside, or `None` without a key or where the key does not open it.
pub open spec fn spec_opened_with(key: Option<&SessionKey>, bytes: Seq<u8>) -> Option<(u8, Seq<char>)> {
    match key {
        Some(k) => spec_open_envelope(k@, bytes),
        None => None,
    }
}

/// Handles a packet that arrived from `from_node`: a MeshGuard payload is
/// opened with the peer's session key if there is one; what it holds
/// decides the action. Message ids and timestamps are fresh.
pub fn handle_incoming_packet(
    from_node: u32,
    payload: &RadioPayload,
    session_key: Option<&SessionKey>,
) -> (r: IncomingAction)
    ensures
        !on_private_app_port(*payload) ==> r is Ignore,
        match spec_private_app_payload(*payload) {
            None => r is Ignore,
            Some(bytes) => match spec_opened_with(session_key, bytes) {
                Some((t, body)) => if t == MSG_TYPE_TEXT {
                    r matches IncomingAction::Deliver(e) && e.from_node == from_node
                        && e.from_name@.len() == 0 && e.text@ == body && is_uuid_v4_text(e.message_id@)
                } else if t == MSG_TYPE_PAIR_ACCEPT {
                    r matches IncomingAction::PairAccepted(e) && e.from_node == from_node
                        && e.from_name@ == body
                } else {
                    r is AlreadyPaired
                },
                None => r matches IncomingAction::PendingPairRequest { from_node: f, payload: q, event: e }
                    && f == from_node && q@ == bytes && e.from_node == from_node
                    && e.from_name@.len() == 0,
            },
        },
{
    let opened = match session_key {
        Some(key) => match payload {
            RadioPayload::Decoded { portnum, payload } => {
                if *portnum == PRIVATE_APP_PORT && payload.len() > 0 {
                    Some(MeshMessage::decrypt_envelope(payload.as_slice(), key))
                } else {
                    None
                }
            },
            _ => None,
        },
        None => None,
    };
    let now = unix_timestamp_now();
    incoming_action(from_node, payload, opened, now)
}

} // verus!
