use vstd::prelude::*;

use crate::text::same_text;

verus! {

/// The fields of one entry of `pactl -f json list sinks` that the device
/// list reads, each present only where the entry holds a string there.
pub struct RawSink {
    /// `name`.
    pub name: Option<String>,
    /// `description`.
    pub description: Option<String>,
    /// `properties."device.description"`.
    pub device_description: Option<String>,
}

/// The characters of an optional string.
pub open spec fn text_of(s: Option<String>) -> Option<Seq<char>> {
    match s {
        Some(t) => Some(t@),
        None => None,
    }
}

impl View for RawSink {
    type V = (Option<Seq<char>>, Option<Seq<char>>, Option<Seq<char>>);

    open spec fn view(&self) -> (Option<Seq<char>>, Option<Seq<char>>, Option<Seq<char>>) {
        (text_of(self.name), text_of(self.description), text_of(self.device_description))
    }
}

/// A PulseAudio/PipeWire sink with its internal name and human-readable description.
#[derive(Clone, Debug)]
pub struct PaSinkInfo {
    /// The sink's internal name, which routing uses.
    pub name: String,
    /// What the device list shows.
    pub description: String,
}

impl View for PaSinkInfo {
    type V = (Seq<char>, Seq<char>);

    open spec fn view(&self) -> (Seq<char>, Seq<char>) {
        (self.name@, self.description@)
    }
}

/// What `pactl -f json list sinks` printed, read as a JSON list: for each
/// entry its `name`, `description` and `properties."device.description"`
/// where they are strings; nothing when the text is not a JSON list.
pub uninterp spec fn sink_listing(text: Seq<char>) -> Option<Seq<(Option<Seq<char>>, Option<Seq<char>>, Option<Seq<char>>)>>;

/// The views of an optional list of entries.
pub open spec fn listing_view(listing: Option<Vec<RawSink>>) -> Option<Seq<(Option<Seq<char>>, Option<Seq<char>>, Option<Seq<char>>)>> {
    match listing {
        Some(entries) => Some(entries@.map_values(|e: RawSink| e@)),
        None => None,
    }
}

/// `serde_json::from_str` into a list of `serde_json::Value`, each entry then
/// read with `Value::get` and `Value::as_str` for its three string fields.
/// The contract only names the result: the JSON grammar is serde_json's.
#[verifier::external_body]
fn read_sink_listing(text: &str) -> (listing: Option<Vec<RawSink>>)
    ensures
        listing_view(listing) == sink_listing(text@),
{
    let values: Vec<serde_json::Value> = serde_json::from_str(text).ok()?;
    Some(values.iter().map(|v| RawSink {
        name: v.get("name").and_then(|n| n.as_str()).map(|n| n.to_string()),
        description: v.get("description").and_then(|d| d.as_str()).map(|d| d.to_string()),
        device_description: v.get("properties").and_then(|p| p.get("device.description"))
            .and_then(|d| d.as_str()).map(|d| d.to_string()),
    }).collect())
}

/// A label worth showing: present, not empty and not the literal "(null)"
/// that pactl prints for a missing one.
pub open spec fn usable_label(label: Option<Seq<char>>) -> Option<Seq<char>> {
    match label {
        Some(l) => if l.len() > 0 && l != "(null)"@ { Some(l) } else { None },
        None => None,
    }
}

/// The device-list entry of a sink: none without a name; otherwise the name
/// with the first usable of the description, the device description and
/// the name itself.
pub open spec fn sink_entry(raw: (Option<Seq<char>>, Option<Seq<char>>, Option<Seq<char>>)) -> Option<(Seq<char>, Seq<char>)> {
    match raw.0 {
        None => None,
        Some(name) => Some((name, match usable_label(raw.1) {
            Some(d) => d,
            None => match usable_label(raw.2) {
                Some(d) => d,
                None => name,
            },
        })),
    }
}

/// The views of a list of sinks.
pub open spec fn sinks_view(sinks: Seq<PaSinkInfo>) -> Seq<(Seq<char>, Seq<char>)> {
    sinks.map_values(|s: PaSinkInfo| s@)
}

fn usable(label: &Option<String>) -> (ok: bool)
    ensures
        ok == usable_label(text_of(*label)) is Some,
{
    match label {
        Some(l) => !l.as_str().is_empty() && !same_text(l.as_str(), "(null)"),
        None => false,
    }
}

/// The device-list entry of one listed sink, as `sink_entry` says.
pub fn sink_info(raw: &RawSink) -> (info: Option<PaSinkInfo>)
    ensures
        (match info {
            Some(i) => Some(i@),
            None => None,
        }) == sink_entry(raw@),
{
    match &raw.name {
        None => None,
        Some(name) => {
            let description = if usable(&raw.description) {
                raw.description.clone().unwrap()
            } else if usable(&raw.device_description) {
                raw.device_description.clone().unwrap()
            } else {
                name.clone()
            };
            Some(PaSinkInfo { name: name.clone(), description })
        },
    }
}

/// The device list of a listing: an entry for each sink that has a name, in order.
pub fn sinks_from_listing(listing: &Vec<RawSink>) -> (sinks: Vec<PaSinkInfo>)
    ensures
        sinks_view(sinks@) == listing@.map_values(|e: RawSink| e@).filter_map(|r| sink_entry(r)),
{
    let ghost raws = listing@.map_values(|e: RawSink| e@);
    let ghost f = |r: (Option<Seq<char>>, Option<Seq<char>>, Option<Seq<char>>)| sink_entry(r);
    let mut sinks: Vec<PaSinkInfo> = Vec::new();
    let mut i: usize = 0;
    while i < listing.len()
        invariant
            i <= listing.len(),
            raws == listing@.map_values(|e: RawSink| e@),
            f == (|r: (Option<Seq<char>>, Option<Seq<char>>, Option<Seq<char>>)| sink_entry(r)),
            sinks_view(sinks@) == raws.take(i as int).filter_map(f),
        decreases listing.len() - i,
    {
        proof {
            raws.lemma_filter_map_take_succ(f, i as int);
        }
        match sink_info(&listing[i]) {
            Some(info) => {
                sinks.push(info);
                assert(sinks_view(sinks@) =~= raws.take(i as int + 1).filter_map(f));
            },
            None => {
                assert(sinks_view(sinks@) =~= raws.take(i as int + 1).filter_map(f));
            },
        }
        i = i + 1;
    }
    assert(raws.take(listing.len() as int) == raws);
    sinks
}

/// The device list of what `pactl -f json list sinks` printed; `None` when
/// that is not a JSON list.
pub fn parse_pactl_sinks(stdout: &str) -> (sinks: Option<Vec<PaSinkInfo>>)
    ensures
        sinks is Some == sink_listing(stdout@) is Some,
        sinks matches Some(found) ==> sinks_view(found@) == sink_listing(stdout@)->0.filter_map(|r| sink_entry(r)),
{
    match read_sink_listing(stdout) {
        Some(listing) => Some(sinks_from_listing(&listing)),
        None => None,
    }
}

} // verus!
