//! Capture-driver policy: device selection, format negotiation, and the
//! chunk channel.
//!
//! The hardware itself is enumerated and opened outside the library; what
//! is verified here is the policy over what enumeration reports: which
//! device to prefer, which configuration to fall back to, and how USB
//! cards are recognised from the sound-card table.

use vstd::prelude::*;
use vstd::string::StrSliceExecFns;
use vstd::string::StringExecFns;

use crate::strutil::{
    contains_ci, contains_ci_exec, find_char, find_index, lemma_find_index, starts_with_ci,
    starts_with_ci_exec, trim_exec, trim_spec,
};

verus! {

/// Why capture could not start.  All four are surfaced synchronously and
/// are recoverable: the machine returns to `Idle` and waits for the next
/// Start edge.
#[derive(Debug, Clone, Copy, PartialEq, Eq, Structural)]
pub enum CaptureError {
    /// No audio input device could be found or accessed.
    NoInputDevice,
    /// The selected device offers no usable input configuration.
    NoUsableInputConfig,
    /// Building the input stream failed.
    StreamConstructionFailed,
    /// The stream was built but would not start.
    StreamStartFailed,
}

impl CaptureError {
    /// A short description for logs.
    pub fn message(&self) -> (r: &'static str)
        ensures
            *self is NoInputDevice ==> r@ == "no audio input device found"@,
            *self is NoUsableInputConfig ==> r@ == "no usable audio input configuration"@,
            *self is StreamConstructionFailed ==> r@ == "failed to build audio input stream"@,
            *self is StreamStartFailed ==> r@ == "failed to start audio input stream"@,
    {
        match self {
            CaptureError::NoInputDevice => "no audio input device found",
            CaptureError::NoUsableInputConfig => "no usable audio input configuration",
            CaptureError::StreamConstructionFailed => "failed to build audio input stream",
            CaptureError::StreamStartFailed => "failed to start audio input stream",
        }
    }
}

/// Hardware sample formats the pipeline can convert.
#[derive(Debug, Clone, Copy, PartialEq, Eq, Structural)]
pub enum SampleFormat {
    I16,
    F32,
    I32,
    U8,
    /// Anything else; never selected while an alternative exists.
    Other,
}

/// The fixed fallback priority: 16-bit int, then 32-bit float, then
/// 32-bit int, then 8-bit, then anything else.
pub open spec fn format_rank(f: SampleFormat) -> int {
    match f {
        SampleFormat::I16 => 0,
        SampleFormat::F32 => 1,
        SampleFormat::I32 => 2,
        SampleFormat::U8 => 3,
        SampleFormat::Other => 4,
    }
}

/// Exec counterpart of `format_rank`.
pub fn format_priority(f: SampleFormat) -> (r: u8)
    ensures
        r as int == format_rank(f),
{
    match f {
        SampleFormat::I16 => 0,
        SampleFormat::F32 => 1,
        SampleFormat::I32 => 2,
        SampleFormat::U8 => 3,
        SampleFormat::Other => 4,
    }
}

/// One supported input configuration as enumeration reports it.
#[derive(Debug, Clone, Copy, PartialEq, Eq, Structural)]
pub struct InputConfigRange {
    pub min_rate: u32,
    pub max_rate: u32,
    pub channels: u16,
    pub format: SampleFormat,
}

/// The sample rate the fallback policy asks of a configuration: the
/// target rate when natively supported, otherwise the maximum.
pub open spec fn fallback_rate(c: InputConfigRange) -> u32 {
    if c.min_rate <= 16000 && 16000 <= c.max_rate {
        16000u32
    } else {
        c.max_rate
    }
}

/// Pick the fallback input configuration: the first configuration of the
/// best (lowest-rank) sample format, with `fallback_rate` applied.
/// Returns `None` exactly when nothing was enumerated.
pub fn select_fallback_config(configs: &Vec<InputConfigRange>) -> (r: Option<(usize, u32)>)
    ensures
        (r is None) <==> configs@.len() == 0,
        r matches Some((i, rate)) ==> {
            &&& 0 <= i < configs@.len()
            &&& forall|j: int|
                0 <= j < configs@.len() ==> format_rank(configs@[i as int].format) <= format_rank(
                    (#[trigger] configs@[j]).format,
                )
            &&& forall|j: int|
                0 <= j < i ==> format_rank((#[trigger] configs@[j]).format) > format_rank(
                    configs@[i as int].format,
                )
            &&& rate == fallback_rate(configs@[i as int])
        },
{
    if configs.len() == 0 {
        return None;
    }
    let mut best: usize = 0;
    let mut best_rank: u8 = format_priority(configs[0].format);
    let mut j: usize = 1;
    while j < configs.len()
        invariant
            0 <= best < j <= configs@.len(),
            best_rank as int == format_rank(configs@[best as int].format),
            forall|k: int|
                0 <= k < j ==> format_rank(configs@[best as int].format) <= format_rank(
                    (#[trigger] configs@[k]).format,
                ),
            forall|k: int|
                0 <= k < best ==> format_rank((#[trigger] configs@[k]).format) > format_rank(
                    configs@[best as int].format,
                ),
        decreases configs@.len() - j,
    {
        let rank: u8 = format_priority(configs[j].format);
        if rank < best_rank {
            best = j;
            best_rank = rank;
        }
        j = j + 1;
    }
    let c: InputConfigRange = configs[best];
    let rate: u32 = if c.min_rate <= 16000 && 16000 <= c.max_rate {
        16000
    } else {
        c.max_rate
    };
    Some((best, rate))
}

/// What device selection knows about one enumerated input device.
#[derive(Debug, Clone)]
pub struct DeviceProbe {
    /// The device name as the backend reports it.
    pub name: String,
    /// Whether the device reports at least one supported input configuration.
    pub has_input_configs: bool,
}

/// Software-mixed or virtual endpoints that must never be picked over a
/// direct hardware device: their names begin with one of these.
pub open spec fn virtual_prefixes() -> Seq<Seq<char>> {
    seq![
        "null"@,
        "default"@,
        "pipewire"@,
        "pulse"@,
        "sysdefault"@,
        "dsnoop"@,
        "plughw"@,
        "jack"@,
        "oss"@,
        "upmix"@,
        "vdownmix"@,
        "lavrate"@,
        "samplerate"@,
        "speex"@,
        "surround"@,
    ]
}

/// The name begins with one of the virtual-endpoint prefixes.
pub open spec fn has_virtual_prefix(name: Seq<char>) -> bool {
    exists|k: int| 0 <= k < virtual_prefixes().len() && starts_with_ci(name, virtual_prefixes()[k])
}

fn has_virtual_prefix_exec(name: &str) -> (r: bool)
    ensures
        r == has_virtual_prefix(name@),
{
    let mut r: bool = false;
    proof {
        assert(virtual_prefixes().len() == 15);
    }
    if starts_with_ci_exec(name, "null") {
        proof {
            assert(starts_with_ci(name@, virtual_prefixes()[0]));
        }
        r = true;
    }
    if starts_with_ci_exec(name, "default") {
        proof {
            assert(starts_with_ci(name@, virtual_prefixes()[1]));
        }
        r = true;
    }
    if starts_with_ci_exec(name, "pipewire") {
        proof {
            assert(starts_with_ci(name@, virtual_prefixes()[2]));
        }
        r = true;
    }
    if starts_with_ci_exec(name, "pulse") {
        proof {
            assert(starts_with_ci(name@, virtual_prefixes()[3]));
        }
        r = true;
    }
    if starts_with_ci_exec(name, "sysdefault") {
        proof {
            assert(starts_with_ci(name@, virtual_prefixes()[4]));
        }
        r = true;
    }
    if starts_with_ci_exec(name, "dsnoop") {
        proof {
            assert(starts_with_ci(name@, virtual_prefixes()[5]));
        }
        r = true;
    }
    if starts_with_ci_exec(name, "plughw") {
        proof {
            assert(starts_with_ci(name@, virtual_prefixes()[6]));
        }
        r = true;
    }
    if starts_with_ci_exec(name, "jack") {
        proof {
            assert(starts_with_ci(name@, virtual_prefixes()[7]));
        }
        r = true;
    }
    if starts_with_ci_exec(name, "oss") {
        proof {
            assert(starts_with_ci(name@, virtual_prefixes()[8]));
        }
        r = true;
    }
    if starts_with_ci_exec(name, "upmix") {
        proof {
            assert(starts_with_ci(name@, virtual_prefixes()[9]));
        }
        r = true;
    }
    if starts_with_ci_exec(name, "vdownmix") {
        proof {
            assert(starts_with_ci(name@, virtual_prefixes()[10]));
        }
        r = true;
    }
    if starts_with_ci_exec(name, "lavrate") {
        proof {
            assert(starts_with_ci(name@, virtual_prefixes()[11]));
        }
        r = true;
    }
    if starts_with_ci_exec(name, "samplerate") {
        proof {
            assert(starts_with_ci(name@, virtual_prefixes()[12]));
        }
        r = true;
    }
    if starts_with_ci_exec(name, "speex") {
        proof {
            assert(starts_with_ci(name@, virtual_prefixes()[13]));
        }
        r = true;
    }
    if starts_with_ci_exec(name, "surround") {
        proof {
            assert(starts_with_ci(name@, virtual_prefixes()[14]));
        }
        r = true;
    }
    proof {
        if !r {
            assert forall|k: int| 0 <= k < virtual_prefixes().len() implies !starts_with_ci(
                name@,
                virtual_prefixes()[k],
            ) by {
            }
        }
    }
    r
}

/// A direct hardware capture name: `hw:` or `front:`.
pub open spec fn is_hardware_name(name: Seq<char>) -> bool {
    starts_with_ci(name, "hw:"@) || starts_with_ci(name, "front:"@)
}

/// A device the policy may select at all: a hardware name, not a virtual
/// endpoint, and with at least one input configuration.
pub open spec fn eligible(d: DeviceProbe) -> bool {
    &&& !has_virtual_prefix(d.name@)
    &&& is_hardware_name(d.name@)
    &&& d.has_input_configs
}

/// The device belongs to one of the USB cards: its name mentions
/// `card=<that card>`.
pub open spec fn is_usb_device(name: Seq<char>, cards: Seq<String>) -> bool {
    exists|k: int| 0 <= k < cards.len() && contains_ci(name, "card="@ + (#[trigger] cards[k])@)
}

fn is_usb_device_exec(name: &str, cards: &Vec<String>) -> (r: bool)
    ensures
        r == is_usb_device(name@, cards@),
{
    let mut k: usize = 0;
    while k < cards.len()
        invariant
            0 <= k <= cards@.len(),
            forall|k2: int|
                0 <= k2 < k ==> !contains_ci(name@, "card="@ + (#[trigger] cards@[k2])@),
        decreases cards@.len() - k,
    {
        let mut pat: String = String::from_str("card=");
        pat.append(cards[k].as_str());
        if contains_ci_exec(name, pat.as_str()) {
            proof {
                assert(contains_ci(name@, "card="@ + cards@[k as int]@));
            }
            return true;
        }
        k = k + 1;
    }
    false
}

/// Select the input device, by the documented policy: the first eligible
/// USB hardware device, else the first eligible hardware device, else
/// `None` (the caller then falls back to the platform default, which some
/// platforms report as working while it yields no data).
pub fn select_input_device(devices: &Vec<DeviceProbe>, usb_cards: &Vec<String>) -> (r: Option<
    usize,
>)
    ensures
        r matches Some(i) ==> 0 <= i < devices@.len() && eligible(devices@[i as int]),
        r is None ==> forall|j: int| 0 <= j < devices@.len() ==> !eligible(#[trigger] devices@[j]),
        r matches Some(i) ==> (is_usb_device(devices@[i as int].name@, usb_cards@) ==> forall|
            j: int,
        |
            0 <= j < i ==> !(eligible(#[trigger] devices@[j]) && is_usb_device(
                devices@[j].name@,
                usb_cards@,
            ))),
        r matches Some(i) ==> (!is_usb_device(devices@[i as int].name@, usb_cards@) ==> (forall|
            j: int,
        |
            0 <= j < devices@.len() ==> !(eligible(#[trigger] devices@[j]) && is_usb_device(
                devices@[j].name@,
                usb_cards@,
            ))) && (forall|j: int| 0 <= j < i ==> !eligible(#[trigger] devices@[j]))),
{
    let mut first_usb: Option<usize> = None;
    let mut first_other: Option<usize> = None;
    let mut j: usize = 0;
    while j < devices.len()
        invariant
            0 <= j <= devices@.len(),
            match first_usb {
                Some(i) => 0 <= i < j && eligible(devices@[i as int]) && is_usb_device(
                    devices@[i as int].name@,
                    usb_cards@,
                ) && forall|k: int|
                    0 <= k < i ==> !(eligible(#[trigger] devices@[k]) && is_usb_device(
                        devices@[k].name@,
                        usb_cards@,
                    )),
                None => forall|k: int|
                    0 <= k < j ==> !(eligible(#[trigger] devices@[k]) && is_usb_device(
                        devices@[k].name@,
                        usb_cards@,
                    )),
            },
            match first_other {
                Some(i) => 0 <= i < j && eligible(devices@[i as int]) && !is_usb_device(
                    devices@[i as int].name@,
                    usb_cards@,
                ) && forall|k: int|
                    0 <= k < i ==> !(eligible(#[trigger] devices@[k]) && !is_usb_device(
                        devices@[k].name@,
                        usb_cards@,
                    )),
                None => forall|k: int|
                    0 <= k < j ==> !(eligible(#[trigger] devices@[k]) && !is_usb_device(
                        devices@[k].name@,
                        usb_cards@,
                    )),
            },
        decreases devices@.len() - j,
    {
        let d: &DeviceProbe = &devices[j];
        let ok: bool = !has_virtual_prefix_exec(d.name.as_str()) && (starts_with_ci_exec(
            d.name.as_str(),
            "hw:",
        ) || starts_with_ci_exec(d.name.as_str(), "front:")) && d.has_input_configs;
        if ok {
            if is_usb_device_exec(d.name.as_str(), usb_cards) {
                if first_usb.is_none() {
                    first_usb = Some(j);
                }
            } else {
                if first_other.is_none() {
                    first_other = Some(j);
                }
            }
        }
        j = j + 1;
    }
    if let Some(i) = first_usb {
        return Some(i);
    }
    match first_other {
        Some(i) => {
            proof {
                assert forall|k: int| 0 <= k < i implies !eligible(#[trigger] devices@[k]) by {
                    assert(!(eligible(devices@[k]) && is_usb_device(devices@[k].name@, usb_cards@)));
                    assert(!(eligible(devices@[k]) && !is_usb_device(
                        devices@[k].name@,
                        usb_cards@,
                    )));
                }
            }
            Some(i)
        },
        None => {
            proof {
                assert forall|k: int| 0 <= k < devices@.len() implies !eligible(
                    #[trigger] devices@[k],
                ) by {
                    assert(!(eligible(devices@[k]) && is_usb_device(devices@[k].name@, usb_cards@)));
                    assert(!(eligible(devices@[k]) && !is_usb_device(
                        devices@[k].name@,
                        usb_cards@,
                    )));
                }
            }
            None
        },
    }
}

/// The card name one line of the sound-card table contributes: when the
/// line mentions `usb-audio` (ASCII case-insensitively) and its first `[`
/// comes before its first `]`, the trimmed text between them, if any.
pub open spec fn line_card(line: Seq<char>) -> Seq<Seq<char>> {
    if contains_ci(line, "usb-audio"@) {
        let o = find_index(line, '[');
        let c = find_index(line, ']');
        if 0 <= o < line.len() && 0 <= c < line.len() && o + 1 <= c {
            let name = trim_spec(line.subrange(o + 1, c));
            if name.len() > 0 {
                seq![name]
            } else {
                Seq::empty()
            }
        } else {
            Seq::empty()
        }
    } else {
        Seq::empty()
    }
}

/// Every USB card name the sound-card table yields, in line order: the
/// contributions of its newline-separated lines, concatenated.
pub open spec fn usb_cards_spec(contents: Seq<char>) -> Seq<Seq<char>>
    decreases contents.len(),
{
    if contents.len() == 0 {
        Seq::empty()
    } else {
        let i = find_index(contents, '\n');
        if !(0 <= i < contents.len()) {
            line_card(contents)
        } else {
            line_card(contents.take(i)) + usb_cards_spec(contents.skip(i + 1))
        }
    }
}

/// Parse the platform's sound-card table: every line that mentions
/// `USB-Audio` contributes the (trimmed, non-empty) card name between the
/// first `[` and the first `]` of that line, in line order.
pub fn parse_usb_cards(contents: &str) -> (cards: Vec<String>)
    ensures
        cards@.map_values(|s: String| s@) =~= usb_cards_spec(contents@),
{
    let n: usize = contents.unicode_len();
    let mut cards: Vec<String> = Vec::new();
    let mut line_start: usize = 0;
    proof {
        assert(contents@.skip(0) =~= contents@);
        assert(cards@.map_values(|s: String| s@) =~= Seq::<Seq<char>>::empty());
    }
    while line_start < n
        invariant
            0 <= line_start <= n,
            n == contents@.len(),
            usb_cards_spec(contents@) =~= cards@.map_values(|s: String| s@) + usb_cards_spec(
                contents@.skip(line_start as int),
            ),
        decreases n - line_start,
    {
        let ghost u = contents@.skip(line_start as int);
        let (line_end, has_nl): (usize, bool) = match find_char(contents, line_start, '\n') {
            Some(e) => (e, true),
            None => (n, false),
        };
        let next_start: usize = if has_nl {
            line_end + 1
        } else {
            n
        };
        proof {
            lemma_find_index(u, '\n');
            if has_nl {
                assert(u[line_end - line_start] == '\n');
                assert(forall|j: int| 0 <= j < line_end - line_start ==> u[j] != '\n');
                assert(find_index(u, '\n') == line_end - line_start);
            } else {
                assert(forall|j: int| 0 <= j < u.len() ==> u[j] != '\n');
                assert(find_index(u, '\n') < 0);
            }
        }
        let line: &str = contents.substring_char(line_start, line_end);
        proof {
            if has_nl {
                assert(line@ =~= u.take(line_end - line_start));
                assert(u.skip(line_end - line_start + 1) =~= contents@.skip(next_start as int));
                assert(usb_cards_spec(u) == line_card(line@) + usb_cards_spec(
                    contents@.skip(next_start as int),
                ));
            } else {
                assert(line@ =~= u);
                assert(usb_cards_spec(u) == line_card(line@));
                assert(contents@.skip(next_start as int) =~= Seq::<char>::empty());
                assert(usb_cards_spec(contents@.skip(next_start as int)) =~= Seq::<
                    Seq<char>,
                >::empty());
            }
        }
        let ghost cards0 = cards@;
        if contains_ci_exec(line, "usb-audio") {
            let open_found: Option<usize> = find_char(line, 0, '[');
            let close_found: Option<usize> = find_char(line, 0, ']');
            proof {
                lemma_find_index(line@, '[');
                lemma_find_index(line@, ']');
                match open_found {
                    Some(o) => {
                        assert(find_index(line@, '[') == o);
                    },
                    None => {
                        assert(find_index(line@, '[') < 0);
                    },
                }
                match close_found {
                    Some(c) => {
                        assert(find_index(line@, ']') == c);
                    },
                    None => {
                        assert(find_index(line@, ']') < 0);
                    },
                }
            }
            if let Some(open_i) = open_found {
                if let Some(close_i) = close_found {
                    if open_i + 1 <= close_i {
                        let raw: &str = line.substring_char(open_i + 1, close_i);
                        let name: String = trim_exec(raw);
                        proof {
                            assert(name@ == trim_spec(line@.subrange(open_i + 1, close_i as int)));
                        }
                        if name.as_str().unicode_len() > 0 {
                            proof {
                                assert(line_card(line@) =~= seq![name@]);
                            }
                            cards.push(name);
                            proof {
                                assert(cards@ =~= cards0.push(cards@[cards0.len() as int]));
                                assert(cards@.map_values(|s: String| s@) =~= cards0.map_values(
                                    |s: String| s@,
                                ).push(cards@[cards0.len() as int]@));
                                assert(cards0.map_values(|s: String| s@) + (line_card(line@)
                                    + usb_cards_spec(contents@.skip(next_start as int))) =~= (
                                cards0.map_values(|s: String| s@) + line_card(line@))
                                    + usb_cards_spec(contents@.skip(next_start as int)));
                            }
                        } else {
                            proof {
                                assert(line_card(line@) =~= Seq::<Seq<char>>::empty());
                            }
                        }
                    } else {
                        proof {
                            assert(line_card(line@) =~= Seq::<Seq<char>>::empty());
                        }
                    }
                } else {
                    proof {
                        assert(line_card(line@) =~= Seq::<Seq<char>>::empty());
                    }
                }
            } else {
                proof {
                    assert(line_card(line@) =~= Seq::<Seq<char>>::empty());
                }
            }
        } else {
            proof {
                assert(line_card(line@) =~= Seq::<Seq<char>>::empty());
            }
        }
        proof {
            assert(usb_cards_spec(contents@) =~= cards@.map_values(|s: String| s@)
                + usb_cards_spec(contents@.skip(next_start as int)));
        }
        line_start = next_start;
    }
    proof {
        assert(contents@.skip(n as int) =~= Seq::<char>::empty());
        assert(usb_cards_spec(Seq::<char>::empty()) =~= Seq::<Seq<char>>::empty());
    }
    cards
}

/// A chunk of mono target-rate PCM samples, as the capture callback
/// hands them across the thread boundary.
pub type AudioChunk = Vec<i16>;

/// Sender half of the chunk channel.
pub type AudioTx = std::sync::mpsc::Sender<AudioChunk>;

/// Receiver half of the chunk channel.
pub type AudioRx = std::sync::mpsc::Receiver<AudioChunk>;

#[verifier::external_type_specification]
#[verifier::external_body]
#[verifier::reject_recursive_types(T)]
pub struct ExSender<T>(std::sync::mpsc::Sender<T>);

#[verifier::external_type_specification]
#[verifier::external_body]
#[verifier::reject_recursive_types(T)]
pub struct ExReceiver<T>(std::sync::mpsc::Receiver<T>);

/// Relies on std::sync::mpsc::channel: a connected sender/receiver pair
/// carrying audio chunks from the capture callback to the collector.
/// Nothing is assumed of the pair's behaviour.
#[verifier::external_body]
pub fn audio_channel() -> (AudioTx, AudioRx) {
    std::sync::mpsc::channel()
}

} // verus!
