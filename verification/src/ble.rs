use vstd::prelude::*;
use vstd::utf8::*;

use crate::text::{bytes_contain, has_infix, lowercase_chars, to_lowercase_str};

verus! {

/// The Meshtastic BLE service UUID, as a big-endian 128-bit number.
pub const MESHTASTIC_SERVICE_UUID: u128 = 0x6ba1b218_15a8_461f_9fa8_5dcae273eafd;

/// The toRadio characteristic UUID (the phone writes to the device).
pub const TO_RADIO_UUID: u128 = 0xf75c76d2_129e_4dad_a1dd_7866124401e7;

/// The fromRadio characteristic UUID (the phone reads from the device).
pub const FROM_RADIO_UUID: u128 = 0x2c55e69e_4993_11ed_b878_0242ac120002;

/// What a BLE scan reports of one peripheral: its advertised name, its
/// address, the service UUIDs it advertises and its signal strength.
pub struct AdvertisedPeripheral {
    pub local_name: Option<String>,
    pub address: String,
    pub services: Vec<u128>,
    pub rssi: Option<i16>,
}

/// Info about a discovered BLE device.
#[derive(Debug)]
pub struct ScannedDevice {
    pub name: String,
    pub address: String,
    pub rssi: Option<i16>,
    pub is_meshtastic: bool,
}

impl View for ScannedDevice {
    type V = (Seq<char>, Seq<char>, Option<i16>, bool);

    open spec fn view(&self) -> Self::V {
        (self.name@, self.address@, self.rssi, self.is_meshtastic)
    }
}

/// Whether `x` is among the advertised services.
pub fn has_service(services: &[u128], x: u128) -> (r: bool)
    ensures
        r == services@.contains(x),
{
    let mut i: usize = 0;
    while i < services.len()
        invariant
            i <= services@.len(),
            forall|j: int| 0 <= j < i ==> services@[j] != x,
        decreases services@.len() - i,
    {
        if services[i] == x {
            assert(services@[i as int] == x);
            return true;
        }
        i = i + 1;
    }
    false
}

/// The name fragments that mark a device as Meshtastic hardware in a scan.
pub open spec fn scan_name_hint(i: int) -> Seq<char> {
    if i == 0 { "meshtastic"@ }
    else if i == 1 { "p1000"@ }
    else if i == 2 { "t-beam"@ }
    else if i == 3 { "heltec"@ }
    else if i == 4 { "rak"@ }
    else { "sensecap"@ }
}

/// Number of name fragments in `scan_name_hint`.
pub const SCAN_NAME_HINTS: usize = 6;

fn scan_name_hint_str(i: usize) -> (r: &'static str)
    requires
        i < SCAN_NAME_HINTS,
    ensures
        r@ == scan_name_hint(i as int),
{
    if i == 0 { "meshtastic" }
    else if i == 1 { "p1000" }
    else if i == 2 { "t-beam" }
    else if i == 3 { "heltec" }
    else if i == 4 { "rak" }
    else { "sensecap" }
}

/// Whether a device looks like Meshtastic hardware in a full scan: it
/// advertises the Meshtastic service, or its lowercased name contains one
/// of the known fragments.
pub open spec fn scan_is_meshtastic(name: Seq<char>, services: Seq<u128>) -> bool {
    services.contains(MESHTASTIC_SERVICE_UUID) || exists|i: int|
        0 <= i < SCAN_NAME_HINTS && #[trigger] has_infix(
            encode_utf8(lowercase_chars(name)),
            encode_utf8(scan_name_hint(i)),
        )
}

/// The name fragments that mark Meshtastic hardware in a full scan.
pub open spec fn scan_name_fragments() -> Seq<Seq<char>> {
    seq!["meshtastic"@, "p1000"@, "t-beam"@, "heltec"@, "rak"@, "sensecap"@]
}

/// A full scan flags a device as Meshtastic exactly when it advertises the
/// Meshtastic service or its lowercased name contains one of the fragments.
pub proof fn lemma_scan_flag_by_fragments(name: Seq<char>, services: Seq<u128>)
    ensures
        scan_is_meshtastic(name, services) <==> (services.contains(MESHTASTIC_SERVICE_UUID)
            || exists|f: Seq<char>|
            #[trigger] scan_name_fragments().contains(f) && has_infix(
                encode_utf8(lowercase_chars(name)),
                encode_utf8(f),
            )),
{
    let frags = scan_name_fragments();
    assert(frags.len() == SCAN_NAME_HINTS);
    assert forall|i: int| 0 <= i < SCAN_NAME_HINTS implies #[trigger] scan_name_hint(i) == frags[i] by {
        if i == 0 { assert(scan_name_hint(i) == frags[0]); }
        else if i == 1 { assert(scan_name_hint(i) == frags[1]); }
        else if i == 2 { assert(scan_name_hint(i) == frags[2]); }
        else if i == 3 { assert(scan_name_hint(i) == frags[3]); }
        else if i == 4 { assert(scan_name_hint(i) == frags[4]); }
        else { assert(scan_name_hint(i) == frags[5]); }
    }
    let lower = encode_utf8(lowercase_chars(name));
    if exists|i: int|
        0 <= i < SCAN_NAME_HINTS && #[trigger] has_infix(lower, encode_utf8(scan_name_hint(i))) {
        let i = choose|i: int|
            0 <= i < SCAN_NAME_HINTS && #[trigger] has_infix(lower, encode_utf8(scan_name_hint(i)));
        assert(frags.contains(frags[i]));
    }
    if exists|f: Seq<char>| #[trigger] frags.contains(f) && has_infix(lower, encode_utf8(f)) {
        let f = choose|f: Seq<char>| #[trigger] frags.contains(f) && has_infix(lower, encode_utf8(f));
        let i = choose|i: int| 0 <= i < frags.len() && frags[i] == f;
        assert(has_infix(lower, encode_utf8(scan_name_hint(i))));
    }
}

/// Decides `scan_is_meshtastic`.
pub fn scan_flags_meshtastic(name: &str, services: &[u128]) -> (r: bool)
    ensures
        r == scan_is_meshtastic(name@, services@),
{
    if has_service(services, MESHTASTIC_SERVICE_UUID) {
        return true;
    }
    let lower = to_lowercase_str(name);
    let bytes = lower.as_str().as_bytes();
    let mut i: usize = 0;
    while i < SCAN_NAME_HINTS
        invariant
            bytes@ == encode_utf8(lowercase_chars(name@)),
            i <= SCAN_NAME_HINTS,
            forall|j: int| 0 <= j < i ==> !#[trigger] has_infix(bytes@, encode_utf8(scan_name_hint(j))),
        decreases SCAN_NAME_HINTS - i,
    {
        if bytes_contain(bytes, scan_name_hint_str(i).as_bytes()) {
            return true;
        }
        i = i + 1;
    }
    false
}

/// The advertised name, or the empty text where there is none.
pub open spec fn advertised_name(p: AdvertisedPeripheral) -> Seq<char> {
    match p.local_name {
        Some(n) => n@,
        None => Seq::empty(),
    }
}

/// What a full scan lists for one peripheral: its name (or "Unknown
/// Device" where it advertises none), address, signal strength and
/// Meshtastic flag.
pub open spec fn spec_scanned_device(p: AdvertisedPeripheral) -> (
    Seq<char>,
    Seq<char>,
    Option<i16>,
    bool,
) {
    let name = advertised_name(p);
    (
        if name.len() == 0 {
            "Unknown Device"@
        } else {
            name
        },
        p.address@,
        p.rssi,
        scan_is_meshtastic(name, p.services@),
    )
}

/// Turns the report of one peripheral into the entry a full scan lists.
pub fn scanned_device(p: &AdvertisedPeripheral) -> (r: ScannedDevice)
    ensures
        r@ == spec_scanned_device(*p),
{
    let name: String = match &p.local_name {
        Some(n) => n.clone(),
        None => String::new(),
    };
    let is_meshtastic = scan_flags_meshtastic(name.as_str(), p.services.as_slice());
    let shown = if name.as_str().is_empty() {
        String::from_str("Unknown Device")
    } else {
        name
    };
    ScannedDevice { name: shown, address: p.address.clone(), rssi: p.rssi, is_meshtastic }
}

/// Index of the first characteristic with the given UUID, if any.
pub fn position_of_uuid(uuids: &[u128], target: u128) -> (r: Option<usize>)
    ensures
        match r {
            Some(i) => i < uuids@.len() && uuids@[i as int] == target && forall|j: int|
                0 <= j < i ==> uuids@[j] != target,
            None => !uuids@.contains(target),
        },
{
    let mut i: usize = 0;
    while i < uuids.len()
        invariant
            i <= uuids@.len(),
            forall|j: int| 0 <= j < i ==> uuids@[j] != target,
        decreases uuids@.len() - i,
    {
        if uuids[i] == target {
            return Some(i);
        }
        i = i + 1;
    }
    None
}

/// Whether two byte strings are equal, compared byte by byte.
fn bytes_equal(a: &[u8], b: &[u8]) -> (r: bool)
    ensures
        r == (a@ == b@),
{
    if a.len() != b.len() {
        return false;
    }
    let mut i: usize = 0;
    while i < a.len()
        invariant
            a@.len() == b@.len(),
            i <= a@.len(),
            forall|j: int| 0 <= j < i ==> a@[j] == b@[j],
        decreases a@.len() - i,
    {
        if a[i] != b[i] {
            return false;
        }
        i = i + 1;
    }
    assert(a@ =~= b@);
    true
}

/// Whether two texts are equal.
pub fn text_equal(a: &str, b: &str) -> (r: bool)
    ensures
        r == (a@ == b@),
{
    let r = bytes_equal(a.as_bytes(), b.as_bytes());
    proof {
        encode_utf8_decode_utf8(a@);
        encode_utf8_decode_utf8(b@);
    }
    r
}

/// Index of the first entry that is present and equal to `target`, if any:
/// a scan searched for a device by its advertised name or its address,
/// where an entry is absent when the device reported none.
pub fn position_of_text(entries: &[Option<String>], target: &str) -> (r: Option<usize>)
    ensures
        match r {
            Some(i) => i < entries@.len() && (entries@[i as int] matches Some(s) && s@ == target@)
                && forall|j: int|
                0 <= j < i ==> !(#[trigger] entries@[j] matches Some(s) && s@ == target@),
            None => forall|j: int|
                0 <= j < entries@.len() ==> !(#[trigger] entries@[j] matches Some(s) && s@
                    == target@),
        },
{
    let mut i: usize = 0;
    while i < entries.len()
        invariant
            i <= entries@.len(),
            forall|j: int|
                0 <= j < i ==> !(#[trigger] entries@[j] matches Some(s) && s@ == target@),
        decreases entries@.len() - i,
    {
        if let Some(s) = &entries[i] {
            if text_equal(s.as_str(), target) {
                return Some(i);
            }
        }
        i = i + 1;
    }
    None
}

/// Largest write to the toRadio characteristic, in bytes.
pub const BLE_WRITE_CHUNK: usize = 512;

/// End of the `i`-th write chunk of a message of `len` bytes.
pub open spec fn chunk_end(i: int, len: int) -> int {
    if (i + 1) * 512 < len {
        (i + 1) * 512
    } else {
        len
    }
}

/// Splits a message into the pieces written to the toRadio characteristic:
/// consecutive runs of 512 bytes, the last one shorter.
pub fn write_chunks(data: &[u8]) -> (r: Vec<Vec<u8>>)
    ensures
        r@.len() == (data@.len() + 511) / 512,
        forall|i: int|
            0 <= i < r@.len() ==> #[trigger] r@[i]@ == data@.subrange(
                i * 512,
                chunk_end(i, data@.len() as int),
            ),
{
    let mut chunks: Vec<Vec<u8>> = Vec::new();
    let mut start: usize = 0;
    while start < data.len()
        invariant
            start <= data@.len(),
            start == data@.len() || start == chunks@.len() * 512,
            start < data@.len() ==> chunks@.len() * 512 < data@.len(),
            chunks@.len() == (start + 511) / 512,
            forall|i: int|
                0 <= i < chunks@.len() ==> #[trigger] chunks@[i]@ == data@.subrange(
                    i * 512,
                    chunk_end(i, data@.len() as int),
                ),
        decreases data@.len() - start,
    {
        let end: usize = if data.len() - start > BLE_WRITE_CHUNK {
            start + BLE_WRITE_CHUNK
        } else {
            data.len()
        };
        let piece = vstd::slice::slice_to_vec(vstd::slice::slice_subrange(data, start, end));
        assert(end as int == chunk_end(chunks@.len() as int, data@.len() as int));
        chunks.push(piece);
        start = end;
    }
    chunks
}

// ── Ordering of the scan results ────────────────────────────────

/// Sort key of a listed device: Meshtastic devices first, then by signal
/// strength, strongest first (a missing strength counts as -100).
pub open spec fn view_rank(v: (Seq<char>, Seq<char>, Option<i16>, bool)) -> int {
    (if v.3 {
        65536int
    } else {
        0int
    }) + match v.2 {
        Some(r) => r as int,
        None => -100int,
    }
}

/// The views of a list of devices.
pub open spec fn devices_view(s: Seq<ScannedDevice>) -> Seq<(Seq<char>, Seq<char>, Option<i16>, bool)> {
    s.map_values(|d: ScannedDevice| d@)
}

/// Selects the devices of sort key `k`.
pub open spec fn rank_is(k: int) -> spec_fn((Seq<char>, Seq<char>, Option<i16>, bool)) -> bool {
    |v: (Seq<char>, Seq<char>, Option<i16>, bool)| view_rank(v) == k
}

/// The list is in non-increasing order of sort key.
pub open spec fn rank_sorted(s: Seq<(Seq<char>, Seq<char>, Option<i16>, bool)>) -> bool {
    forall|i: int, j: int| 0 <= i < j < s.len() ==> view_rank(s[i]) >= view_rank(s[j])
}

/// `output` is the stable sort of `input` by sort key: it is sorted, and the
/// devices of each key appear in it in the order they had in `input`.
pub open spec fn is_stable_rank_sort(
    input: Seq<(Seq<char>, Seq<char>, Option<i16>, bool)>,
    output: Seq<(Seq<char>, Seq<char>, Option<i16>, bool)>,
) -> bool {
    &&& rank_sorted(output)
    &&& forall|k: int| #[trigger] output.filter(rank_is(k)) == input.filter(rank_is(k))
}

/// Signal strength of a listed device, a missing strength counting as -100.
pub open spec fn listed_strength(v: (Seq<char>, Seq<char>, Option<i16>, bool)) -> int {
    match v.2 {
        Some(r) => r as int,
        None => -100,
    }
}

/// The order of a listing: every Meshtastic device comes before every other
/// device, whatever their signal strengths, and among devices of the same
/// kind the stronger signal comes first.
pub open spec fn meshtastic_first_then_strongest(
    s: Seq<(Seq<char>, Seq<char>, Option<i16>, bool)>,
) -> bool {
    forall|i: int, j: int|
        0 <= i < j < s.len() ==> {
            &&& (s[i].3 || !s[j].3)
            &&& (s[i].3 == s[j].3 ==> listed_strength(s[i]) >= listed_strength(s[j]))
        }
}

/// A listing in order of sort key lists Meshtastic devices first, then the
/// stronger signal first.
pub proof fn lemma_rank_order_is_meshtastic_first(s: Seq<(Seq<char>, Seq<char>, Option<i16>, bool)>)
    requires
        rank_sorted(s),
    ensures
        meshtastic_first_then_strongest(s),
{
    assert forall|i: int, j: int| 0 <= i < j < s.len() implies {
        &&& (s[i].3 || !s[j].3)
        &&& (s[i].3 == s[j].3 ==> listed_strength(s[i]) >= listed_strength(s[j]))
    } by {
        assert(view_rank(s[i]) >= view_rank(s[j]));
        assert(-32768 <= listed_strength(s[i]) <= 32767);
        assert(-32768 <= listed_strength(s[j]) <= 32767);
    }
}

fn device_rank(d: &ScannedDevice) -> (r: i32)
    ensures
        r == view_rank(d@),
{
    let strength: i32 = match d.rssi {
        Some(v) => v as i32,
        None => -100,
    };
    if d.is_meshtastic {
        65536 + strength
    } else {
        strength
    }
}

proof fn lemma_filter_of_single(
    x: (Seq<char>, Seq<char>, Option<i16>, bool),
    k: int,
)
    ensures
        seq![x].filter(rank_is(k)) == (if view_rank(x) == k {
            seq![x]
        } else {
            Seq::empty()
        }),
{
    reveal_with_fuel(Seq::filter, 2);
    assert(seq![x].drop_last() =~= Seq::<(Seq<char>, Seq<char>, Option<i16>, bool)>::empty());
}

proof fn lemma_filter_of_none(s: Seq<(Seq<char>, Seq<char>, Option<i16>, bool)>, k: int)
    requires
        forall|i: int| 0 <= i < s.len() ==> view_rank(#[trigger] s[i]) != k,
    ensures
        s.filter(rank_is(k)) == Seq::<(Seq<char>, Seq<char>, Option<i16>, bool)>::empty(),
    decreases s.len(),
{
    reveal(Seq::filter);
    if s.len() > 0 {
        lemma_filter_of_none(s.drop_last(), k);
    }
}

proof fn lemma_filter_after_push(
    s: Seq<(Seq<char>, Seq<char>, Option<i16>, bool)>,
    x: (Seq<char>, Seq<char>, Option<i16>, bool),
    k: int,
)
    ensures
        s.push(x).filter(rank_is(k)) == (if view_rank(x) == k {
            s.filter(rank_is(k)).push(x)
        } else {
            s.filter(rank_is(k))
        }),
{
    reveal_with_fuel(Seq::filter, 1);
    assert(s.push(x).drop_last() =~= s);
}

proof fn lemma_insert_keeps_classes(
    out: Seq<(Seq<char>, Seq<char>, Option<i16>, bool)>,
    p: int,
    x: (Seq<char>, Seq<char>, Option<i16>, bool),
    k: int,
)
    requires
        0 <= p <= out.len(),
        forall|t: int| 0 <= t < p ==> view_rank(#[trigger] out[t]) >= view_rank(x),
        forall|t: int| p <= t < out.len() ==> view_rank(#[trigger] out[t]) < view_rank(x),
    ensures
        out.insert(p, x).filter(rank_is(k)) == (if view_rank(x) == k {
            out.filter(rank_is(k)).push(x)
        } else {
            out.filter(rank_is(k))
        }),
{
    broadcast use Seq::filter_distributes_over_add;

    let a = out.take(p);
    let b = out.skip(p);
    assert(out =~= a + b);
    assert(out.insert(p, x) =~= a + seq![x] + b);
    lemma_filter_of_single(x, k);
    if view_rank(x) == k {
        assert forall|i: int| 0 <= i < b.len() implies view_rank(#[trigger] b[i]) != k by {
            assert(b[i] == out[p + i]);
        }
        lemma_filter_of_none(b, k);
        assert(out.insert(p, x).filter(rank_is(k)) =~= a.filter(rank_is(k)).push(x));
        assert(out.filter(rank_is(k)) =~= a.filter(rank_is(k)));
    } else {
        assert((a + seq![x] + b).filter(rank_is(k)) =~= a.filter(rank_is(k)) + b.filter(
            rank_is(k),
        ));
    }
}

/// Orders the devices of a scan: Meshtastic devices first, then by signal
/// strength, strongest first; devices that tie keep their order.
pub fn sort_scanned_devices(devices: Vec<ScannedDevice>) -> (r: Vec<ScannedDevice>)
    ensures
        r@.len() == devices@.len(),
        is_stable_rank_sort(devices_view(devices@), devices_view(r@)),
        meshtastic_first_then_strongest(devices_view(r@)),
{
    let ghost orig = devices_view(devices@);
    let mut rest = devices;
    let mut out: Vec<ScannedDevice> = Vec::new();
    let ghost mut done: int = 0;
    assert(devices_view(rest@) =~= orig.skip(0));
    proof {
        assert forall|k: int| #[trigger] devices_view(out@).filter(rank_is(k)) == orig.take(
            0,
        ).filter(rank_is(k)) by {
            assert(devices_view(out@) =~= orig.take(0));
        }
    }
    while rest.len() > 0
        invariant
            0 <= done <= orig.len(),
            out@.len() == done,
            devices_view(rest@) == orig.skip(done),
            rank_sorted(devices_view(out@)),
            forall|k: int| #[trigger] devices_view(out@).filter(rank_is(k)) == orig.take(done).filter(
                rank_is(k),
            ),
        decreases rest.len(),
    {
        let ghost before = devices_view(out@);
        let ghost rest_before = devices_view(rest@);
        assert(rest_before.len() == rest@.len());
        assert(orig.skip(done)[0] == orig[done]);
        let x = rest.remove(0);
        assert(rest_before[0] == x@);
        assert(rest_before[0] == orig[done]);
        assert(devices_view(rest@) =~= rest_before.drop_first());
        let ghost rest_after = devices_view(rest@);
        let rx = device_rank(&x);
        let mut p: usize = 0;
        while p < out.len() && device_rank(&out[p]) >= rx
            invariant
                p <= out@.len(),
                devices_view(out@) == before,
                forall|t: int| 0 <= t < p ==> view_rank(#[trigger] before[t]) >= rx,
            decreases out@.len() - p,
        {
            p = p + 1;
        }
        assert forall|t: int| p <= t < before.len() implies view_rank(#[trigger] before[t]) < rx by {
            assert(view_rank(before[p as int]) < rx);
        }
        out.insert(p, x);
        proof {
            let after = devices_view(out@);
            assert(after =~= before.insert(p as int, x@));
            assert(orig.take(done + 1) =~= orig.take(done).push(x@));
            assert forall|k: int| #[trigger] after.filter(rank_is(k)) == orig.take(done + 1).filter(
                rank_is(k),
            ) by {
                lemma_insert_keeps_classes(before, p as int, x@, k);
                lemma_filter_after_push(orig.take(done), x@, k);
            }
            assert forall|i: int, j: int| 0 <= i < j < after.len() implies view_rank(after[i])
                >= view_rank(after[j]) by {
                if j < p {
                } else if j == p {
                } else if i < p {
                } else if i == p {
                    assert(after[j] == before[j - 1]);
                } else {
                    assert(after[i] == before[i - 1]);
                    assert(after[j] == before[j - 1]);
                }
            }
            assert(rest_after =~= orig.skip(done + 1));
            done = done + 1;
        }
    }
    assert(orig.take(done) =~= orig);
    proof {
        lemma_rank_order_is_meshtastic_first(devices_view(out@));
    }
    out
}

/// The entries of a full scan, before they are ordered: one per
/// discovered peripheral, in discovery order.
pub open spec fn spec_scan_entries(ps: Seq<AdvertisedPeripheral>) -> Seq<
    (Seq<char>, Seq<char>, Option<i16>, bool),
> {
    ps.map_values(|p: AdvertisedPeripheral| spec_scanned_device(p))
}

/// The listing of a full scan: every discovered peripheral, ordered by
/// `sort_scanned_devices`.
pub fn collect_scanned_devices(peripherals: &[AdvertisedPeripheral]) -> (r: Vec<ScannedDevice>)
    ensures
        r@.len() == peripherals@.len(),
        is_stable_rank_sort(spec_scan_entries(peripherals@), devices_view(r@)),
        meshtastic_first_then_strongest(devices_view(r@)),
{
    let mut found: Vec<ScannedDevice> = Vec::new();
    let mut i: usize = 0;
    while i < peripherals.len()
        invariant
            i <= peripherals@.len(),
            devices_view(found@) == spec_scan_entries(peripherals@.take(i as int)),
        decreases peripherals@.len() - i,
    {
        let ghost before = devices_view(found@);
        let d = scanned_device(&peripherals[i]);
        found.push(d);
        assert(devices_view(found@) =~= before.push(d@));
        assert(peripherals@.take(i + 1) =~= peripherals@.take(i as int).push(peripherals@[i as int]));
        assert(devices_view(found@) =~= spec_scan_entries(peripherals@.take(i + 1)));
        i = i + 1;
    }
    assert(peripherals@.take(peripherals@.len() as int) =~= peripherals@);
    sort_scanned_devices(found)
}

} // verus!
