//! Binary serialization for metrique entries.
//!
//! ## `Operation` property convention
//!
//! Metrique entries should include a string property named `Operation`
//! (case-insensitive match). This property identifies the logical operation the
//! entry represents (e.g. `"GetItem"`, `"PutRecord"`). The trace viewer uses
//! the `Operation` value as the display name for span bars and grouping.
//!
//! ## Layout
//!
//! ```text
//! [num_properties: u16]
//!   [key_len: u16][key: N][value_len: u16][value: N] ...
//! [num_metrics: u16]
//!   [name_len: u16][name: N][flags: u8][unit_len: u8][unit: N][obs_count: u16][values: 8*count] ...
//! ```
//!
//! Numbers are little-endian. An observation is a double, kept here as its bit
//! pattern.

use vstd::bytes::{
    lemma_auto_spec_u64_to_from_le_bytes, spec_u64_from_le_bytes, spec_u64_to_le_bytes,
    u64_from_le_bytes, u64_to_le_bytes,
};
use vstd::prelude::*;
use vstd::slice::slice_subrange;
use vstd::utf8::{
    decode_utf8, encode_utf8, encode_utf8_decode_utf8, encode_utf8_valid_utf8, valid_utf8,
};

verus! {

/// The value of a metric.
#[verifier::ext_equal]
pub struct MetricModel {
    pub name: Seq<char>,
    pub is_span: bool,
    pub unit: Seq<char>,
    pub values: Seq<u64>,
}

/// The value of an entry.
#[verifier::ext_equal]
pub struct EntryModel {
    pub properties: Seq<(Seq<char>, Seq<char>)>,
    pub metrics: Seq<MetricModel>,
}

/// The two bytes of `n`, low byte first; what does not fit is cut off.
pub open spec fn le16(n: nat) -> Seq<u8> {
    seq![(n % 256) as u8, (n / 256 % 256) as u8]
}

/// A text with its length in front.
pub open spec fn text_bytes(s: Seq<char>) -> Seq<u8> {
    le16(encode_utf8(s).len()) + encode_utf8(s)
}

/// A property.
pub open spec fn property_bytes(p: (Seq<char>, Seq<char>)) -> Seq<u8> {
    text_bytes(p.0) + text_bytes(p.1)
}

/// Properties, one after the other.
pub open spec fn properties_bytes(ps: Seq<(Seq<char>, Seq<char>)>) -> Seq<u8>
    decreases ps.len(),
{
    if ps.len() == 0 {
        Seq::empty()
    } else {
        properties_bytes(ps.drop_last()) + property_bytes(ps.last())
    }
}

/// Observations, one after the other.
pub open spec fn values_bytes(vs: Seq<u64>) -> Seq<u8>
    decreases vs.len(),
{
    if vs.len() == 0 {
        Seq::empty()
    } else {
        values_bytes(vs.drop_last()) + spec_u64_to_le_bytes(vs.last())
    }
}

/// The flags of a metric: bit 0 marks a span boundary.
pub open spec fn flags_byte(is_span: bool) -> u8 {
    if is_span {
        1
    } else {
        0
    }
}

/// The name of a unit with its length, one byte, in front.
pub open spec fn unit_bytes(unit: Seq<char>) -> Seq<u8> {
    seq![(encode_utf8(unit).len() % 256) as u8] + encode_utf8(unit)
}

/// A metric.
pub open spec fn metric_bytes(m: MetricModel) -> Seq<u8> {
    text_bytes(m.name) + (seq![flags_byte(m.is_span)] + (unit_bytes(m.unit) + (le16(m.values.len())
        + values_bytes(m.values))))
}

/// Metrics, one after the other.
pub open spec fn metrics_bytes(ms: Seq<MetricModel>) -> Seq<u8>
    decreases ms.len(),
{
    if ms.len() == 0 {
        Seq::empty()
    } else {
        metrics_bytes(ms.drop_last()) + metric_bytes(ms.last())
    }
}

/// An entry.
pub open spec fn entry_bytes(e: EntryModel) -> Seq<u8> {
    le16(e.properties.len()) + properties_bytes(e.properties) + le16(e.metrics.len())
        + metrics_bytes(e.metrics)
}

/// Appends the bytes of a slice.
fn push_bytes(buf: &mut Vec<u8>, bytes: &[u8])
    ensures
        final(buf)@ == old(buf)@ + bytes@,
{
    let ghost before = buf@;
    buf.extend_from_slice(bytes);
    assert(buf@ =~= before + bytes@);
}

/// Appends a 16-bit number.
fn push_u16(buf: &mut Vec<u8>, n: u16)
    ensures
        final(buf)@ == old(buf)@ + le16(n as nat),
{
    let ghost before = buf@;
    buf.push((n % 256) as u8);
    buf.push((n / 256) as u8);
    assert(buf@ =~= before + le16(n as nat));
}

/// The low 16 bits of a length.
fn low_u16(n: usize) -> (r: u16)
    ensures
        r as nat == n as nat % 65536,
        le16(r as nat) == le16(n as nat),
{
    let r: u16 = (n % 65536) as u16;
    assert(r as nat % 256 == n as nat % 256);
    assert(r as nat / 256 % 256 == n as nat / 256 % 256);
    r
}

/// Appends a text with its length in front.
fn push_text(buf: &mut Vec<u8>, s: &str)
    ensures
        final(buf)@ == old(buf)@ + text_bytes(s@),
{
    let ghost before = buf@;
    let bytes = s.as_bytes();
    push_u16(buf, low_u16(bytes.len()));
    push_bytes(buf, bytes);
    assert(buf@ =~= before + text_bytes(s@));
}

proof fn lemma_assoc(a: Seq<u8>, b: Seq<u8>, c: Seq<u8>)
    ensures
        (a + b) + c == a + (b + c),
{
    assert((a + b) + c =~= a + (b + c));
}

/// Appends observations.
fn push_values(buf: &mut Vec<u8>, values: &Vec<u64>)
    ensures
        final(buf)@ == old(buf)@ + values_bytes(values@),
{
    let ghost before = buf@;
    let mut i: usize = 0;
    assert(values@.take(0) =~= Seq::empty());
    assert(buf@ =~= before + values_bytes(values@.take(0)));
    while i < values.len()
        invariant
            i <= values@.len(),
            buf@ == before + values_bytes(values@.take(i as int)),
        decreases values@.len() - i,
    {
        let ghost next = values@.take(i + 1);
        assert(next.drop_last() =~= values@.take(i as int));
        let bytes = u64_to_le_bytes(values[i]);
        push_bytes(buf, bytes.as_slice());
        proof {
            lemma_assoc(before, values_bytes(next.drop_last()), bytes@);
        }
        i = i + 1;
    }
    assert(values@.take(i as int) =~= values@);
}

/// Appends a metric.
fn push_metric(buf: &mut Vec<u8>, name: &str, is_span: bool, unit: &str, values: &Vec<u64>)
    requires
        values@.len() <= u16::MAX,
    ensures
        final(buf)@ == old(buf)@ + metric_bytes(
            MetricModel { name: name@, is_span, unit: unit@, values: values@ },
        ),
{
    let ghost start = buf@;
    let ghost text = text_bytes(name@);
    let ghost flag = seq![flags_byte(is_span)];
    push_text(buf, name);
    let flags: u8 = if is_span {
        1
    } else {
        0
    };
    let ghost named = buf@;
    buf.push(flags);
    assert(buf@ =~= named + flag);
    let ghost flagged = buf@;
    let unit_name = unit.as_bytes();
    let unit_len: u8 = (unit_name.len() % 256) as u8;
    buf.push(unit_len);
    push_bytes(buf, unit_name);
    assert(buf@ =~= flagged + unit_bytes(unit@));
    push_u16(buf, values.len() as u16);
    push_values(buf, values);
    proof {
        let u = unit_bytes(unit@);
        let c = le16(values@.len());
        let v = values_bytes(values@);
        lemma_assoc(flagged + u, c, v);
        lemma_assoc(flagged, u, c + v);
        lemma_assoc(named, flag, u + (c + v));
        lemma_assoc(start, text, flag + (u + (c + v)));
    }
}

/// Writes entries directly into a byte buffer without intermediate allocations.
///
/// Counts are written as zero placeholders, then patched in-place once all
/// items are written.
pub struct BinaryEntryWriter {
    buf: Vec<u8>,
    /// Offset of the property count in `buf`.
    prop_count_offset: usize,
    prop_count: u16,
    /// Offset of the metric count (set when the first metric arrives or at the end).
    metric_count_offset: Option<usize>,
    metric_count: u16,
    /// True once we've transitioned from properties to metrics.
    in_metrics: bool,
    entry: Ghost<EntryModel>,
}

impl View for BinaryEntryWriter {
    type V = EntryModel;

    closed spec fn view(&self) -> EntryModel {
        self.entry@
    }
}

impl BinaryEntryWriter {
    /// Whether a metric was written; properties must come before metrics.
    pub closed spec fn has_begun_metrics(self) -> bool {
        self.in_metrics
    }

    /// The buffer holds the entry written so far, with placeholders for the
    /// counts that are not patched yet.
    pub closed spec fn inv(self) -> bool {
        let props = properties_bytes(self.entry@.properties);
        &&& self.prop_count_offset == 0
        &&& self.prop_count as nat == self.entry@.properties.len()
        &&& self.metric_count as nat == self.entry@.metrics.len()
        &&& if self.in_metrics {
            &&& self.metric_count_offset is Some
            &&& self.metric_count_offset->0 == 2 + props.len()
            &&& self.buf@ == le16(self.entry@.properties.len()) + props + le16(0) + metrics_bytes(
                self.entry@.metrics,
            )
        } else {
            &&& self.metric_count_offset is None
            &&& self.entry@.metrics.len() == 0
            &&& self.buf@ == le16(0) + props
        }
    }

    /// A writer without properties and metrics.
    pub fn new() -> (w: BinaryEntryWriter)
        ensures
            w.inv(),
            !w.has_begun_metrics(),
            w@ == (EntryModel { properties: Seq::empty(), metrics: Seq::empty() }),
    {
        let mut buf: Vec<u8> = Vec::with_capacity(256);
        push_u16(&mut buf, 0);
        let w = BinaryEntryWriter {
            buf,
            prop_count_offset: 0,
            prop_count: 0,
            metric_count_offset: None,
            metric_count: 0,
            in_metrics: false,
            entry: Ghost(EntryModel { properties: Seq::empty(), metrics: Seq::empty() }),
        };
        assert(w.buf@ =~= le16(0) + properties_bytes(w.entry@.properties));
        w
    }

    /// Transition to the metrics section if not already there.
    fn begin_metrics(&mut self)
        requires
            old(self).inv(),
        ensures
            final(self).inv(),
            final(self).in_metrics,
            final(self)@ == old(self)@,
    {
        if !self.in_metrics {
            let ghost props = properties_bytes(self.entry@.properties);
            self.in_metrics = true;
            let off: usize = self.prop_count_offset;
            self.buf.set(off, (self.prop_count % 256) as u8);
            self.buf.set(off + 1, (self.prop_count / 256) as u8);
            assert(self.buf@ =~= le16(self.prop_count as nat) + props);
            self.metric_count_offset = Some(self.buf.len());
            push_u16(&mut self.buf, 0);
            assert(self.buf@ =~= le16(self.entry@.properties.len()) + props + le16(0)
                + metrics_bytes(self.entry@.metrics));
        }
    }

    /// Writes a property. Properties come before metrics.
    pub fn write_property(&mut self, key: &str, value: &str)
        requires
            old(self).inv(),
            !old(self).has_begun_metrics(),
            old(self)@.properties.len() < u16::MAX,
        ensures
            final(self).inv(),
            !final(self).has_begun_metrics(),
            final(self)@ == (EntryModel {
                properties: old(self)@.properties.push((key@, value@)),
                ..old(self)@
            }),
    {
        let ghost before = self.entry@;
        self.prop_count = self.prop_count + 1;
        push_text(&mut self.buf, key);
        push_text(&mut self.buf, value);
        let ghost more = before.properties.push((key@, value@));
        self.entry = Ghost(EntryModel { properties: more, ..before });
        assert(more.drop_last() =~= before.properties);
        assert(self.buf@ =~= le16(0) + properties_bytes(more));
    }

    /// Writes a metric: its name, whether it marks a span boundary, the name of
    /// its unit, and its observations as bit patterns.
    pub fn write_metric(&mut self, name: &str, is_span: bool, unit: &str, values: &Vec<u64>)
        requires
            old(self).inv(),
            old(self)@.metrics.len() < u16::MAX,
            values@.len() <= u16::MAX,
        ensures
            final(self).inv(),
            final(self).has_begun_metrics(),
            final(self)@ == (EntryModel {
                metrics: old(self)@.metrics.push(
                    MetricModel { name: name@, is_span, unit: unit@, values: values@ },
                ),
                ..old(self)@
            }),
    {
        self.begin_metrics();
        let ghost before = self.entry@;
        let ghost start = self.buf@;
        let ghost metric = MetricModel { name: name@, is_span, unit: unit@, values: values@ };
        self.metric_count = self.metric_count + 1;
        push_metric(&mut self.buf, name, is_span, unit, values);
        let ghost more = before.metrics.push(metric);
        self.entry = Ghost(EntryModel { metrics: more, ..before });
        assert(more.drop_last() =~= before.metrics);
        proof {
            lemma_assoc(
                le16(before.properties.len()) + properties_bytes(before.properties) + le16(0),
                metrics_bytes(before.metrics),
                metric_bytes(metric),
            );
        }
    }

    /// The bytes of the entry.
    pub fn into_bytes(self) -> (bytes: Vec<u8>)
        requires
            self.inv(),
        ensures
            bytes@ == entry_bytes(self@),
    {
        let mut w = self;
        w.begin_metrics();
        let ghost e = w.entry@;
        let ghost props = properties_bytes(e.properties);
        let mut buf = w.buf;
        match w.metric_count_offset {
            Some(off) => {
                let len: usize = buf.len();
                assert(len == 2 + props.len() + 2 + metrics_bytes(e.metrics).len());
                buf.set(off, (w.metric_count % 256) as u8);
                buf.set(off + 1, (w.metric_count / 256) as u8);
                assert(buf@ =~= entry_bytes(e));
            },
            None => {},
        }
        buf
    }
}

/// A 16-bit number at the front of `d`, and what follows it.
pub open spec fn parse_u16(d: Seq<u8>) -> Option<(nat, Seq<u8>)> {
    if d.len() >= 2 {
        Some((d[0] as nat + 256 * d[1] as nat, d.skip(2)))
    } else {
        None
    }
}

/// A byte at the front of `d`, and what follows it.
pub open spec fn parse_u8(d: Seq<u8>) -> Option<(u8, Seq<u8>)> {
    if d.len() >= 1 {
        Some((d[0], d.skip(1)))
    } else {
        None
    }
}

/// A text of `n` bytes at the front of `d`, and what follows it.
pub open spec fn parse_text(d: Seq<u8>, n: nat) -> Option<(Seq<char>, Seq<u8>)> {
    if n <= d.len() && valid_utf8(d.take(n as int)) {
        Some((decode_utf8(d.take(n as int)), d.skip(n as int)))
    } else {
        None
    }
}

/// A text with its length in front at the front of `d`, and what follows it.
pub open spec fn parse_sized_text(d: Seq<u8>) -> Option<(Seq<char>, Seq<u8>)> {
    match parse_u16(d) {
        Some((n, rest)) => parse_text(rest, n),
        None => None,
    }
}

/// A property at the front of `d`, and what follows it.
pub open spec fn parse_property(d: Seq<u8>) -> Option<((Seq<char>, Seq<char>), Seq<u8>)> {
    match parse_sized_text(d) {
        Some((key, rest)) => match parse_sized_text(rest) {
            Some((value, rest)) => Some(((key, value), rest)),
            None => None,
        },
        None => None,
    }
}

/// `n` properties at the front of `d`, and what follows them.
pub open spec fn parse_properties(d: Seq<u8>, n: nat) -> Option<
    (Seq<(Seq<char>, Seq<char>)>, Seq<u8>),
>
    decreases n,
{
    if n == 0 {
        Some((Seq::empty(), d))
    } else {
        match parse_properties(d, (n - 1) as nat) {
            Some((ps, rest)) => match parse_property(rest) {
                Some((p, rest)) => Some((ps.push(p), rest)),
                None => None,
            },
            None => None,
        }
    }
}

/// `n` observations at the front of `d`, and what follows them.
pub open spec fn parse_values(d: Seq<u8>, n: nat) -> Option<(Seq<u64>, Seq<u8>)>
    decreases n,
{
    if n == 0 {
        Some((Seq::empty(), d))
    } else {
        match parse_values(d, (n - 1) as nat) {
            Some((vs, rest)) => if rest.len() >= 8 {
                Some((vs.push(spec_u64_from_le_bytes(rest.take(8))), rest.skip(8)))
            } else {
                None
            },
            None => None,
        }
    }
}

/// A metric at the front of `d`, and what follows it.
pub open spec fn parse_metric(d: Seq<u8>) -> Option<(MetricModel, Seq<u8>)> {
    match parse_sized_text(d) {
        Some((name, rest)) => match parse_u8(rest) {
            Some((flags, rest)) => match parse_u8(rest) {
                Some((unit_len, rest)) => match parse_text(rest, unit_len as nat) {
                    Some((unit, rest)) => match parse_u16(rest) {
                        Some((count, rest)) => match parse_values(rest, count) {
                            Some((values, rest)) => Some(
                                (MetricModel { name, is_span: flags % 2 == 1, unit, values }, rest),
                            ),
                            None => None,
                        },
                        None => None,
                    },
                    None => None,
                },
                None => None,
            },
            None => None,
        },
        None => None,
    }
}

/// `n` metrics at the front of `d`, and what follows them.
pub open spec fn parse_metrics(d: Seq<u8>, n: nat) -> Option<(Seq<MetricModel>, Seq<u8>)>
    decreases n,
{
    if n == 0 {
        Some((Seq::empty(), d))
    } else {
        match parse_metrics(d, (n - 1) as nat) {
            Some((ms, rest)) => match parse_metric(rest) {
                Some((m, rest)) => Some((ms.push(m), rest)),
                None => None,
            },
            None => None,
        }
    }
}

/// The entry at the front of `d`, and what follows it.
pub open spec fn parse_front_entry(d: Seq<u8>) -> Option<(EntryModel, Seq<u8>)> {
    match parse_u16(d) {
        Some((np, rest)) => match parse_properties(rest, np) {
            Some((properties, rest)) => match parse_u16(rest) {
                Some((nm, rest)) => match parse_metrics(rest, nm) {
                    Some((metrics, rest)) => Some((EntryModel { properties, metrics }, rest)),
                    None => None,
                },
                None => None,
            },
            None => None,
        },
        None => None,
    }
}

/// The entry at the front of `d`; what follows it is passed over.
pub open spec fn parse_entry(d: Seq<u8>) -> Option<EntryModel> {
    match parse_front_entry(d) {
        Some((entry, _)) => Some(entry),
        None => None,
    }
}

/// How many bytes at the front of `d` the entry there is made of.
pub open spec fn entry_len(d: Seq<u8>) -> int {
    match parse_front_entry(d) {
        Some((_, rest)) => d.len() - rest.len(),
        None => 0,
    }
}

/// Whether lengths and counts of the entry fit their fields.
pub open spec fn entry_fits(e: EntryModel) -> bool {
    &&& e.properties.len() <= u16::MAX
    &&& e.metrics.len() <= u16::MAX
    &&& forall|i: int|
        0 <= i < e.properties.len() ==> {
            &&& encode_utf8((#[trigger] e.properties[i]).0).len() <= u16::MAX
            &&& encode_utf8(e.properties[i].1).len() <= u16::MAX
        }
    &&& forall|i: int| 0 <= i < e.metrics.len() ==> metric_fits(#[trigger] e.metrics[i])
}

/// Whether lengths and counts of the metric fit their fields.
pub open spec fn metric_fits(m: MetricModel) -> bool {
    &&& encode_utf8(m.name).len() <= u16::MAX
    &&& encode_utf8(m.unit).len() <= u8::MAX
    &&& m.values.len() <= u16::MAX
}

proof fn lemma_parse_u16(n: nat, rest: Seq<u8>)
    requires
        n <= u16::MAX,
    ensures
        parse_u16(le16(n) + rest) == Some((n, rest)),
{
    let d = le16(n) + rest;
    assert(d.skip(2) =~= rest);
    assert(n == n % 256 + 256 * (n / 256));
    assert(n / 256 < 256);
}

proof fn lemma_parse_text(s: Seq<char>, rest: Seq<u8>)
    ensures
        parse_text(encode_utf8(s) + rest, encode_utf8(s).len()) == Some((s, rest)),
{
    let b = encode_utf8(s);
    let d = b + rest;
    assert(d.take(b.len() as int) =~= b);
    assert(d.skip(b.len() as int) =~= rest);
    encode_utf8_valid_utf8(s);
    encode_utf8_decode_utf8(s);
}

proof fn lemma_parse_sized_text(s: Seq<char>, rest: Seq<u8>)
    requires
        encode_utf8(s).len() <= u16::MAX,
    ensures
        parse_sized_text(text_bytes(s) + rest) == Some((s, rest)),
{
    let b = encode_utf8(s);
    assert(text_bytes(s) + rest =~= le16(b.len()) + (b + rest));
    lemma_parse_u16(b.len(), b + rest);
    lemma_parse_text(s, rest);
}

proof fn lemma_parse_properties(ps: Seq<(Seq<char>, Seq<char>)>, rest: Seq<u8>)
    requires
        forall|i: int|
            0 <= i < ps.len() ==> {
                &&& encode_utf8((#[trigger] ps[i]).0).len() <= u16::MAX
                &&& encode_utf8(ps[i].1).len() <= u16::MAX
            },
    ensures
        parse_properties(properties_bytes(ps) + rest, ps.len()) == Some((ps, rest)),
    decreases ps.len(),
{
    if ps.len() == 0 {
        assert(properties_bytes(ps) + rest =~= rest);
        assert(ps =~= Seq::empty());
    } else {
        let init = ps.drop_last();
        let p = ps.last();
        assert(ps[ps.len() - 1] == p);
        assert forall|i: int| 0 <= i < init.len() implies {
            &&& encode_utf8((#[trigger] init[i]).0).len() <= u16::MAX
            &&& encode_utf8(init[i].1).len() <= u16::MAX
        } by {
            assert(init[i] == ps[i]);
        }
        let tail = property_bytes(p) + rest;
        lemma_parse_properties(init, tail);
        assert(properties_bytes(ps) + rest =~= properties_bytes(init) + tail);
        assert(tail =~= text_bytes(p.0) + (text_bytes(p.1) + rest));
        lemma_parse_sized_text(p.0, text_bytes(p.1) + rest);
        lemma_parse_sized_text(p.1, rest);
        assert(init.push(p) =~= ps);
    }
}

proof fn lemma_parse_values(vs: Seq<u64>, rest: Seq<u8>)
    ensures
        parse_values(values_bytes(vs) + rest, vs.len()) == Some((vs, rest)),
    decreases vs.len(),
{
    if vs.len() == 0 {
        assert(values_bytes(vs) + rest =~= rest);
        assert(vs =~= Seq::empty());
    } else {
        let init = vs.drop_last();
        let b = spec_u64_to_le_bytes(vs.last());
        let tail = b + rest;
        lemma_parse_values(init, tail);
        lemma_auto_spec_u64_to_from_le_bytes();
        assert(values_bytes(vs) + rest =~= values_bytes(init) + tail);
        assert(tail.take(8) =~= b);
        assert(tail.skip(8) =~= rest);
        assert(init.push(vs.last()) =~= vs);
    }
}

proof fn lemma_parse_metric(m: MetricModel, rest: Seq<u8>)
    requires
        metric_fits(m),
    ensures
        parse_metric(metric_bytes(m) + rest) == Some((m, rest)),
{
    let t = text_bytes(m.name);
    let f = seq![flags_byte(m.is_span)];
    let u = unit_bytes(m.unit);
    let c = le16(m.values.len());
    let v = values_bytes(m.values);
    let r3 = c + (v + rest);
    let r2 = u + r3;
    let r1 = f + r2;
    assert(metric_bytes(m) + rest == t + r1) by {
        lemma_assoc(t, f + (u + (c + v)), rest);
        lemma_assoc(f, u + (c + v), rest);
        lemma_assoc(u, c + v, rest);
        lemma_assoc(c, v, rest);
    }
    lemma_parse_sized_text(m.name, r1);
    assert(parse_u8(r1) == Some((flags_byte(m.is_span), r2))) by {
        assert(r1.skip(1) =~= r2);
    }
    lemma_parse_unit(m.unit, r3);
    lemma_parse_u16(m.values.len(), v + rest);
    lemma_parse_values(m.values, rest);
}

proof fn lemma_parse_unit(unit: Seq<char>, rest: Seq<u8>)
    requires
        encode_utf8(unit).len() <= u8::MAX,
    ensures
        ({
            let b = encode_utf8(unit);
            &&& parse_u8(unit_bytes(unit) + rest) == Some((b.len() as u8, b + rest))
            &&& parse_text(b + rest, (b.len() as u8) as nat) == Some((unit, rest))
        }),
{
    let b = encode_utf8(unit);
    assert((unit_bytes(unit) + rest).skip(1) =~= b + rest);
    lemma_parse_text(unit, rest);
}

proof fn lemma_parse_metrics(ms: Seq<MetricModel>, rest: Seq<u8>)
    requires
        forall|i: int| 0 <= i < ms.len() ==> metric_fits(#[trigger] ms[i]),
    ensures
        parse_metrics(metrics_bytes(ms) + rest, ms.len()) == Some((ms, rest)),
    decreases ms.len(),
{
    if ms.len() == 0 {
        assert(metrics_bytes(ms) + rest =~= rest);
        assert(ms =~= Seq::empty());
    } else {
        let init = ms.drop_last();
        assert(ms[ms.len() - 1] == ms.last());
        assert forall|i: int| 0 <= i < init.len() implies metric_fits(#[trigger] init[i]) by {
            assert(init[i] == ms[i]);
        }
        let tail = metric_bytes(ms.last()) + rest;
        lemma_parse_metrics(init, tail);
        assert(metrics_bytes(ms) + rest =~= metrics_bytes(init) + tail);
        lemma_parse_metric(ms.last(), rest);
        assert(init.push(ms.last()) =~= ms);
    }
}

/// What is written is read back: parsing the bytes of an entry gives the
/// entry, whatever follows, as long as its lengths and counts fit their fields.
pub proof fn lemma_parse_inverts_serialize(e: EntryModel, trailing: Seq<u8>)
    requires
        entry_fits(e),
    ensures
        parse_entry(entry_bytes(e) + trailing) == Some(e),
        entry_len(entry_bytes(e) + trailing) == entry_bytes(e).len(),
{
    let r2 = metrics_bytes(e.metrics) + trailing;
    let r1 = le16(e.metrics.len()) + r2;
    let r0 = properties_bytes(e.properties) + r1;
    assert(entry_bytes(e) + trailing =~= le16(e.properties.len()) + r0);
    lemma_parse_u16(e.properties.len(), r0);
    lemma_parse_properties(e.properties, r1);
    lemma_parse_u16(e.metrics.len(), r2);
    lemma_parse_metrics(e.metrics, trailing);
}

/// Whether `rest` is what is left of `d` behind some of its bytes.
spec fn is_rest(d: Seq<u8>, rest: Seq<u8>) -> bool {
    rest.len() <= d.len() && rest == d.skip(d.len() - rest.len())
}

/// Whether `e` starts with the bytes of `d` in front of `rest`.
spec fn same_front(d: Seq<u8>, e: Seq<u8>, rest: Seq<u8>) -> bool {
    let n = d.len() - rest.len();
    n <= e.len() && e.take(n) == d.take(n)
}

/// What is left of `e` behind as many bytes as `d` has in front of `rest`.
spec fn rest_of(d: Seq<u8>, e: Seq<u8>, rest: Seq<u8>) -> Seq<u8> {
    e.skip(d.len() - rest.len())
}

/// Reading on: what is left of a rest is a rest, and a front that two texts
/// share is shared in both of its parts.
proof fn lemma_front(d: Seq<u8>, e: Seq<u8>, r1: Seq<u8>, r2: Seq<u8>)
    requires
        is_rest(d, r1),
        is_rest(r1, r2),
    ensures
        is_rest(d, r2),
        same_front(d, e, r2) ==> {
            &&& same_front(d, e, r1)
            &&& same_front(r1, rest_of(d, e, r1), r2)
            &&& rest_of(r1, rest_of(d, e, r1), r2) == rest_of(d, e, r2)
        },
{
    let n1 = d.len() - r1.len();
    let n2 = r1.len() - r2.len();
    let n = d.len() - r2.len();
    assert(d.skip(n1).skip(n2) =~= d.skip(n));
    if same_front(d, e, r2) {
        assert(e.take(n).take(n1) =~= e.take(n1));
        assert(d.take(n).take(n1) =~= d.take(n1));
        assert(e.take(n).skip(n1) =~= e.skip(n1).take(n2));
        assert(d.take(n).skip(n1) =~= d.skip(n1).take(n2));
        assert(e.skip(n1).skip(n2) =~= e.skip(n));
    }
}

proof fn lemma_u16_is_local(d: Seq<u8>, e: Seq<u8>)
    ensures
        parse_u16(d) matches Some((n, rest)) ==> is_rest(d, rest) && (same_front(d, e, rest)
            ==> parse_u16(e) == Some((n, rest_of(d, e, rest)))),
{
    if parse_u16(d) is Some && same_front(d, e, d.skip(2)) {
        assert(e.take(2)[0] == d.take(2)[0]);
        assert(e.take(2)[1] == d.take(2)[1]);
    }
}

proof fn lemma_u8_is_local(d: Seq<u8>, e: Seq<u8>)
    ensures
        parse_u8(d) matches Some((n, rest)) ==> is_rest(d, rest) && (same_front(d, e, rest)
            ==> parse_u8(e) == Some((n, rest_of(d, e, rest)))),
{
    if parse_u8(d) is Some && same_front(d, e, d.skip(1)) {
        assert(e.take(1)[0] == d.take(1)[0]);
    }
}

proof fn lemma_text_is_local(d: Seq<u8>, e: Seq<u8>, n: nat)
    ensures
        parse_text(d, n) matches Some((s, rest)) ==> is_rest(d, rest) && (same_front(d, e, rest)
            ==> parse_text(e, n) == Some((s, rest_of(d, e, rest)))),
{
}

proof fn lemma_sized_text_is_local(d: Seq<u8>, e: Seq<u8>)
    ensures
        parse_sized_text(d) matches Some((s, rest)) ==> is_rest(d, rest) && (same_front(d, e, rest)
            ==> parse_sized_text(e) == Some((s, rest_of(d, e, rest)))),
{
    lemma_u16_is_local(d, e);
    if let Some((n, r1)) = parse_u16(d) {
        let e1 = rest_of(d, e, r1);
        lemma_text_is_local(r1, e1, n);
        if let Some((_, r2)) = parse_text(r1, n) {
            lemma_front(d, e, r1, r2);
        }
    }
}

proof fn lemma_property_is_local(d: Seq<u8>, e: Seq<u8>)
    ensures
        parse_property(d) matches Some((p, rest)) ==> is_rest(d, rest) && (same_front(d, e, rest)
            ==> parse_property(e) == Some((p, rest_of(d, e, rest)))),
{
    lemma_sized_text_is_local(d, e);
    if let Some((_, r1)) = parse_sized_text(d) {
        lemma_sized_text_is_local(r1, rest_of(d, e, r1));
        if let Some((_, r2)) = parse_sized_text(r1) {
            lemma_front(d, e, r1, r2);
        }
    }
}

proof fn lemma_properties_are_local(d: Seq<u8>, e: Seq<u8>, n: nat)
    ensures
        parse_properties(d, n) matches Some((ps, rest)) ==> is_rest(d, rest) && (same_front(
            d,
            e,
            rest,
        ) ==> parse_properties(e, n) == Some((ps, rest_of(d, e, rest)))),
    decreases n,
{
    if n == 0 {
        assert(d.skip(0) =~= d);
        assert(e.skip(0) =~= e);
    } else {
        lemma_properties_are_local(d, e, (n - 1) as nat);
        if let Some((_, r1)) = parse_properties(d, (n - 1) as nat) {
            lemma_property_is_local(r1, rest_of(d, e, r1));
            if let Some((_, r2)) = parse_property(r1) {
                lemma_front(d, e, r1, r2);
            }
        }
    }
}

proof fn lemma_values_are_local(d: Seq<u8>, e: Seq<u8>, n: nat)
    ensures
        parse_values(d, n) matches Some((vs, rest)) ==> is_rest(d, rest) && (same_front(d, e, rest)
            ==> parse_values(e, n) == Some((vs, rest_of(d, e, rest)))),
    decreases n,
{
    if n == 0 {
        assert(d.skip(0) =~= d);
        assert(e.skip(0) =~= e);
    } else {
        lemma_values_are_local(d, e, (n - 1) as nat);
        if let Some((_, r1)) = parse_values(d, (n - 1) as nat) {
            if r1.len() >= 8 {
                lemma_front(d, e, r1, r1.skip(8));
            }
        }
    }
}

proof fn lemma_metric_is_local(d: Seq<u8>, e: Seq<u8>)
    ensures
        parse_metric(d) matches Some((m, rest)) ==> is_rest(d, rest) && (same_front(d, e, rest)
            ==> parse_metric(e) == Some((m, rest_of(d, e, rest)))),
{
    lemma_sized_text_is_local(d, e);
    if let Some((_, r1)) = parse_sized_text(d) {
        lemma_u8_is_local(r1, rest_of(d, e, r1));
        if let Some((_, r2)) = parse_u8(r1) {
            lemma_front(d, e, r1, r2);
            lemma_u8_is_local(r2, rest_of(d, e, r2));
            if let Some((n, r3)) = parse_u8(r2) {
                lemma_front(d, e, r2, r3);
                lemma_text_is_local(r3, rest_of(d, e, r3), n as nat);
                if let Some((_, r4)) = parse_text(r3, n as nat) {
                    lemma_front(d, e, r3, r4);
                    lemma_u16_is_local(r4, rest_of(d, e, r4));
                    if let Some((count, r5)) = parse_u16(r4) {
                        lemma_front(d, e, r4, r5);
                        lemma_values_are_local(r5, rest_of(d, e, r5), count);
                        if let Some((_, r6)) = parse_values(r5, count) {
                            lemma_front(d, e, r5, r6);
                        }
                    }
                }
            }
        }
    }
}

proof fn lemma_metrics_are_local(d: Seq<u8>, e: Seq<u8>, n: nat)
    ensures
        parse_metrics(d, n) matches Some((ms, rest)) ==> is_rest(d, rest) && (same_front(
            d,
            e,
            rest,
        ) ==> parse_metrics(e, n) == Some((ms, rest_of(d, e, rest)))),
    decreases n,
{
    if n == 0 {
        assert(d.skip(0) =~= d);
        assert(e.skip(0) =~= e);
    } else {
        lemma_metrics_are_local(d, e, (n - 1) as nat);
        if let Some((_, r1)) = parse_metrics(d, (n - 1) as nat) {
            lemma_metric_is_local(r1, rest_of(d, e, r1));
            if let Some((_, r2)) = parse_metric(r1) {
                lemma_front(d, e, r1, r2);
            }
        }
    }
}

proof fn lemma_entry_is_local(d: Seq<u8>, e: Seq<u8>)
    ensures
        parse_front_entry(d) matches Some((entry, rest)) ==> is_rest(d, rest) && (same_front(
            d,
            e,
            rest,
        ) ==> parse_front_entry(e) == Some((entry, rest_of(d, e, rest)))),
{
    lemma_u16_is_local(d, e);
    if let Some((np, r1)) = parse_u16(d) {
        lemma_properties_are_local(r1, rest_of(d, e, r1), np);
        if let Some((_, r2)) = parse_properties(r1, np) {
            lemma_front(d, e, r1, r2);
            lemma_u16_is_local(r2, rest_of(d, e, r2));
            if let Some((nm, r3)) = parse_u16(r2) {
                lemma_front(d, e, r2, r3);
                lemma_metrics_are_local(r3, rest_of(d, e, r3), nm);
                if let Some((_, r4)) = parse_metrics(r3, nm) {
                    lemma_front(d, e, r3, r4);
                }
            }
        }
    }
}

/// What follows an entry never matters: bytes that start with those of an
/// accepted entry are accepted, with that entry, however they go on.
pub proof fn lemma_tail_never_matters(d: Seq<u8>, tail: Seq<u8>)
    requires
        parse_entry(d) is Some,
    ensures
        0 <= entry_len(d) <= d.len(),
        parse_entry(d.take(entry_len(d)) + tail) == parse_entry(d),
        entry_len(d.take(entry_len(d)) + tail) == entry_len(d),
{
    let n = entry_len(d);
    let e = d.take(n) + tail;
    lemma_entry_is_local(d, e);
    assert(e.take(n) =~= d.take(n));
}

/// An entry that is cut off is refused: of the bytes that an accepted entry is
/// made of, none can be missing at the end.
pub proof fn lemma_cut_off_entry_is_refused(d: Seq<u8>, k: int)
    requires
        parse_entry(d) is Some,
        0 <= k < entry_len(d),
    ensures
        parse_entry(d.take(k)) is None,
{
    let cut = d.take(k);
    lemma_entry_is_local(d, d);
    if let Some((_, rest)) = parse_front_entry(cut) {
        lemma_entry_is_local(cut, d);
        let n = cut.len() - rest.len();
        assert(d.take(n) =~= cut.take(n));
    }
}

/// Parsed representation of an entry.
#[derive(Debug, Clone)]
pub struct ParsedMetriqueData {
    pub properties: Vec<(String, String)>,
    pub metrics: Vec<ParsedMetric>,
}

/// Parsed representation of a metric. `values` holds the observations as bit
/// patterns of doubles.
#[derive(Debug, Clone)]
pub struct ParsedMetric {
    pub name: String,
    pub is_span: bool,
    pub unit: String,
    pub values: Vec<u64>,
}

impl View for ParsedMetric {
    type V = MetricModel;

    open spec fn view(&self) -> MetricModel {
        MetricModel {
            name: self.name@,
            is_span: self.is_span,
            unit: self.unit@,
            values: self.values@,
        }
    }
}

/// The value of each property.
pub open spec fn property_models(ps: Seq<(String, String)>) -> Seq<(Seq<char>, Seq<char>)> {
    ps.map_values(|p: (String, String)| (p.0@, p.1@))
}

/// The value of each metric.
pub open spec fn metric_models(ms: Seq<ParsedMetric>) -> Seq<MetricModel> {
    ms.map_values(|m: ParsedMetric| m@)
}

impl View for ParsedMetriqueData {
    type V = EntryModel;

    open spec fn view(&self) -> EntryModel {
        EntryModel {
            properties: property_models(self.properties@),
            metrics: metric_models(self.metrics@),
        }
    }
}

/// `str::from_utf8` accepts exactly the bytes that are valid UTF-8 and gives
/// their text.
#[verifier::external_body]
fn utf8_text(bytes: &[u8]) -> (text: Option<String>)
    ensures
        text is Some <==> valid_utf8(bytes@),
        text matches Some(s) ==> s@ == decode_utf8(bytes@),
{
    match std::str::from_utf8(bytes) {
        Ok(s) => Some(s.to_string()),
        Err(_) => None,
    }
}

fn read_u16(data: &[u8], off: usize) -> (r: Option<u16>)
    requires
        off <= data@.len(),
    ensures
        r is Some <==> off + 2 <= data@.len(),
        r matches Some(n) ==> parse_u16(data@.skip(off as int)) == Some(
            (n as nat, data@.skip(off + 2)),
        ),
        r is None ==> parse_u16(data@.skip(off as int)) is None,
{
    if data.len() - off < 2 {
        return None;
    }
    assert(data@.skip(off as int).skip(2) =~= data@.skip(off + 2));
    Some(data[off] as u16 + 256 * (data[off + 1] as u16))
}

fn read_text(data: &[u8], off: usize, n: usize) -> (r: Option<String>)
    requires
        off <= data@.len(),
    ensures
        r is Some ==> off + n <= data@.len(),
        r matches Some(s) ==> parse_text(data@.skip(off as int), n as nat) == Some(
            (s@, data@.skip(off + n)),
        ),
        r is None ==> parse_text(data@.skip(off as int), n as nat) is None,
{
    if data.len() - off < n {
        return None;
    }
    assert(data@.skip(off as int).take(n as int) =~= data@.subrange(off as int, off + n));
    assert(data@.skip(off as int).skip(n as int) =~= data@.skip(off + n));
    utf8_text(slice_subrange(data, off, off + n))
}

/// Reads a text with its length in front; gives the text and the offset after
/// it.
fn read_sized_text(data: &[u8], off: usize) -> (r: Option<(String, usize)>)
    requires
        off <= data@.len(),
    ensures
        r matches Some((s, next)) ==> off <= next <= data@.len() && parse_sized_text(
            data@.skip(off as int),
        ) == Some((s@, data@.skip(next as int))),
        r is None ==> parse_sized_text(data@.skip(off as int)) is None,
{
    let len: usize = data.len();
    assert(off <= len);
    match read_u16(data, off) {
        Some(n) => match read_text(data, off + 2, n as usize) {
            Some(s) => Some((s, off + 2 + n as usize)),
            None => None,
        },
        None => None,
    }
}

fn read_properties(data: &[u8], off: usize, n: u16) -> (r: Option<(Vec<(String, String)>, usize)>)
    requires
        off <= data@.len(),
    ensures
        r matches Some((ps, next)) ==> off <= next <= data@.len() && parse_properties(
            data@.skip(off as int),
            n as nat,
        ) == Some((property_models(ps@), data@.skip(next as int))),
        r is None ==> parse_properties(data@.skip(off as int), n as nat) is None,
{
    let mut ps: Vec<(String, String)> = Vec::new();
    let mut at: usize = off;
    let mut i: u16 = 0;
    let ghost d = data@.skip(off as int);
    assert(property_models(ps@) =~= Seq::empty());
    while i < n
        invariant
            i <= n,
            off <= at <= data@.len(),
            d == data@.skip(off as int),
            parse_properties(d, i as nat) == Some((property_models(ps@), data@.skip(at as int))),
        decreases n - i,
    {
        let ghost before = ps@;
        let (key, after_key) = match read_sized_text(data, at) {
            Some(r) => r,
            None => {
                proof {
                    lemma_properties_stop(d, (i + 1) as nat, n as nat);
                }
                return None;
            },
        };
        let (value, after_value) = match read_sized_text(data, after_key) {
            Some(r) => r,
            None => {
                proof {
                    lemma_properties_stop(d, (i + 1) as nat, n as nat);
                }
                return None;
            },
        };
        let ghost p = (key@, value@);
        ps.push((key, value));
        assert(property_models(ps@) =~= property_models(before).push(p));
        at = after_value;
        i = i + 1;
    }
    Some((ps, at))
}

proof fn lemma_properties_stop(d: Seq<u8>, k: nat, n: nat)
    requires
        parse_properties(d, k) is None,
        k <= n,
    ensures
        parse_properties(d, n) is None,
    decreases n - k,
{
    if k < n {
        lemma_properties_stop(d, k + 1, n);
    }
}

fn read_values(data: &[u8], off: usize, n: u16) -> (r: Option<(Vec<u64>, usize)>)
    requires
        off <= data@.len(),
    ensures
        r matches Some((vs, next)) ==> off <= next <= data@.len() && parse_values(
            data@.skip(off as int),
            n as nat,
        ) == Some((vs@, data@.skip(next as int))),
        r is None ==> parse_values(data@.skip(off as int), n as nat) is None,
{
    let mut vs: Vec<u64> = Vec::new();
    let mut at: usize = off;
    let mut i: u16 = 0;
    let ghost d = data@.skip(off as int);
    assert(vs@ =~= Seq::empty());
    while i < n
        invariant
            i <= n,
            off <= at <= data@.len(),
            d == data@.skip(off as int),
            parse_values(d, i as nat) == Some((vs@, data@.skip(at as int))),
        decreases n - i,
    {
        if data.len() - at < 8 {
            proof {
                lemma_values_stop(d, (i + 1) as nat, n as nat);
            }
            return None;
        }
        assert(data@.skip(at as int).take(8) =~= data@.subrange(at as int, at + 8));
        assert(data@.skip(at as int).skip(8) =~= data@.skip(at + 8));
        let v: u64 = u64_from_le_bytes(slice_subrange(data, at, at + 8));
        vs.push(v);
        at = at + 8;
        i = i + 1;
    }
    Some((vs, at))
}

proof fn lemma_values_stop(d: Seq<u8>, k: nat, n: nat)
    requires
        parse_values(d, k) is None,
        k <= n,
    ensures
        parse_values(d, n) is None,
    decreases n - k,
{
    if k < n {
        lemma_values_stop(d, k + 1, n);
    }
}

fn read_metric(data: &[u8], off: usize) -> (r: Option<(ParsedMetric, usize)>)
    requires
        off <= data@.len(),
    ensures
        r matches Some((m, next)) ==> off <= next <= data@.len() && parse_metric(
            data@.skip(off as int),
        ) == Some((m@, data@.skip(next as int))),
        r is None ==> parse_metric(data@.skip(off as int)) is None,
{
    let (name, at) = match read_sized_text(data, off) {
        Some(r) => r,
        None => {
            return None;
        },
    };
    if data.len() - at < 1 {
        return None;
    }
    let flags: u8 = data[at];
    assert(data@.skip(at as int).skip(1) =~= data@.skip(at + 1));
    if data.len() - at < 2 {
        return None;
    }
    let unit_len: usize = data[at + 1] as usize;
    assert(data@.skip(at + 1).skip(1) =~= data@.skip(at + 2));
    let unit = match read_text(data, at + 2, unit_len) {
        Some(u) => u,
        None => {
            return None;
        },
    };
    let at: usize = at + 2 + unit_len;
    let count = match read_u16(data, at) {
        Some(c) => c,
        None => {
            return None;
        },
    };
    match read_values(data, at + 2, count) {
        Some((values, next)) => {
            Some((ParsedMetric { name, is_span: flags % 2 == 1, unit, values }, next))
        },
        None => None,
    }
}

fn read_metrics(data: &[u8], off: usize, n: u16) -> (r: Option<Vec<ParsedMetric>>)
    requires
        off <= data@.len(),
    ensures
        r matches Some(ms) ==> (parse_metrics(data@.skip(off as int), n as nat) matches Some(
            (models, _),
        ) && models == metric_models(ms@)),
        r is None ==> parse_metrics(data@.skip(off as int), n as nat) is None,
{
    let mut ms: Vec<ParsedMetric> = Vec::new();
    let mut at: usize = off;
    let mut i: u16 = 0;
    let ghost d = data@.skip(off as int);
    assert(metric_models(ms@) =~= Seq::empty());
    while i < n
        invariant
            i <= n,
            off <= at <= data@.len(),
            d == data@.skip(off as int),
            parse_metrics(d, i as nat) == Some((metric_models(ms@), data@.skip(at as int))),
        decreases n - i,
    {
        let ghost before = ms@;
        match read_metric(data, at) {
            Some((m, next)) => {
                let ghost model = m@;
                ms.push(m);
                assert(metric_models(ms@) =~= metric_models(before).push(model));
                at = next;
            },
            None => {
                proof {
                    lemma_metrics_stop(d, (i + 1) as nat, n as nat);
                }
                return None;
            },
        }
        i = i + 1;
    }
    Some(ms)
}

proof fn lemma_metrics_stop(d: Seq<u8>, k: nat, n: nat)
    requires
        parse_metrics(d, k) is None,
        k <= n,
    ensures
        parse_metrics(d, n) is None,
    decreases n - k,
{
    if k < n {
        lemma_metrics_stop(d, k + 1, n);
    }
}

/// Parse the bytes written by [`BinaryEntryWriter::into_bytes`].
pub fn parse_metrique_data(data: &[u8]) -> (parsed: Option<ParsedMetriqueData>)
    ensures
        parsed matches Some(p) ==> parse_entry(data@) == Some(p@),
        parsed is None ==> parse_entry(data@) is None,
{
    assert(data@.skip(0) =~= data@);
    let len: usize = data.len();
    let num_props = match read_u16(data, 0) {
        Some(n) => n,
        None => {
            return None;
        },
    };
    let (properties, at) = match read_properties(data, 2, num_props) {
        Some(r) => r,
        None => {
            return None;
        },
    };
    let num_metrics = match read_u16(data, at) {
        Some(n) => n,
        None => {
            return None;
        },
    };
    assert(at + 2 <= len);
    match read_metrics(data, at + 2, num_metrics) {
        Some(metrics) => Some(ParsedMetriqueData { properties, metrics }),
        None => None,
    }
}

/// A count and the length of a text take two bytes, low byte first; the length
/// of a unit takes one. Behind a length stand as many bytes of the text.
pub proof fn lemma_layout_of_numbers_and_texts(n: nat, s: Seq<char>)
    ensures
        le16(n).len() == 2,
        le16(n)[0] + 256 * le16(n)[1] == n % 65536,
        text_bytes(s).len() == 2 + encode_utf8(s).len(),
        encode_utf8(s).len() <= u16::MAX ==> text_bytes(s)[0] + 256 * text_bytes(s)[1]
            == encode_utf8(s).len(),
        text_bytes(s).skip(2) == encode_utf8(s),
        unit_bytes(s).len() == 1 + encode_utf8(s).len(),
        encode_utf8(s).len() <= u8::MAX ==> unit_bytes(s)[0] == encode_utf8(s).len(),
        unit_bytes(s).skip(1) == encode_utf8(s),
{
    assert(n % 65536 == n % 256 + 256 * (n / 256 % 256));
    let len = encode_utf8(s).len();
    assert(len <= u16::MAX ==> len == len % 256 + 256 * (len / 256 % 256));
    assert(text_bytes(s).skip(2) =~= encode_utf8(s));
    assert(unit_bytes(s).skip(1) =~= encode_utf8(s));
}

/// A property is its key and then its value; properties, observations and
/// metrics follow each other in order. An observation takes eight bytes, low
/// byte first.
pub proof fn lemma_layout_of_lists(
    ps: Seq<(Seq<char>, Seq<char>)>,
    p: (Seq<char>, Seq<char>),
    vs: Seq<u64>,
    v: u64,
    ms: Seq<MetricModel>,
    m: MetricModel,
)
    ensures
        properties_bytes(Seq::empty()) == Seq::<u8>::empty(),
        properties_bytes(ps.push(p)) == properties_bytes(ps) + (text_bytes(p.0) + text_bytes(p.1)),
        values_bytes(Seq::empty()) == Seq::<u8>::empty(),
        values_bytes(vs.push(v)) == values_bytes(vs) + spec_u64_to_le_bytes(v),
        metrics_bytes(Seq::empty()) == Seq::<u8>::empty(),
        metrics_bytes(ms.push(m)) == metrics_bytes(ms) + metric_bytes(m),
{
    assert(ps.push(p).drop_last() =~= ps);
    assert(vs.push(v).drop_last() =~= vs);
    assert(ms.push(m).drop_last() =~= ms);
}

/// A metric is its name, a byte whose lowest bit says whether it marks a span
/// boundary, its unit, and how many observations it has, and then these.
pub proof fn lemma_layout_of_a_metric(m: MetricModel)
    ensures
        ({
            let name = text_bytes(m.name);
            let b = metric_bytes(m);
            let behind = b.skip(name.len() as int + 1);
            &&& b.take(name.len() as int) == name
            &&& b[name.len() as int] == (if m.is_span {
                1int
            } else {
                0
            })
            &&& behind == unit_bytes(m.unit) + le16(m.values.len()) + values_bytes(m.values)
        }),
{
    let name = text_bytes(m.name);
    let b = metric_bytes(m);
    assert(b.take(name.len() as int) =~= name);
    assert(b.skip(name.len() as int + 1) =~= unit_bytes(m.unit) + le16(m.values.len())
        + values_bytes(m.values));
}

/// An entry is how many properties it has, and then these; behind them how many
/// metrics it has, and then these.
pub proof fn lemma_layout_of_an_entry(e: EntryModel)
    ensures
        ({
            let b = entry_bytes(e);
            let props = properties_bytes(e.properties);
            &&& b.take(2) == le16(e.properties.len())
            &&& b.subrange(2, 2 + props.len() as int) == props
            &&& b.subrange(2 + props.len() as int, 4 + props.len() as int) == le16(e.metrics.len())
            &&& b.skip(4 + props.len() as int) == metrics_bytes(e.metrics)
        }),
{
    let b = entry_bytes(e);
    let props = properties_bytes(e.properties);
    assert(b.take(2) =~= le16(e.properties.len()));
    assert(b.subrange(2, 2 + props.len() as int) =~= props);
    assert(b.subrange(2 + props.len() as int, 4 + props.len() as int) =~= le16(e.metrics.len()));
    assert(b.skip(4 + props.len() as int) =~= metrics_bytes(e.metrics));
}

/// Numbers are read low byte first, and a text only where all its bytes are
/// there and are valid. What is read is taken off the front and nothing else.
pub proof fn lemma_numbers_and_texts_are_read(d: Seq<u8>, n: nat)
    ensures
        parse_u16(d) is Some <==> d.len() >= 2,
        parse_u16(d) matches Some((v, rest)) ==> v == d[0] + 256 * d[1] && rest == d.skip(2),
        parse_u8(d) is Some <==> d.len() >= 1,
        parse_u8(d) matches Some((v, rest)) ==> v == d[0] && rest == d.skip(1),
        parse_text(d, n) is Some <==> d.len() >= n && valid_utf8(d.take(n as int)),
        parse_text(d, n) matches Some((s, rest)) ==> s == decode_utf8(d.take(n as int)) && rest
            == d.skip(n as int),
{
}

/// Of the flags of a metric only the lowest bit is read: it says whether the
/// metric marks a span boundary.
pub proof fn lemma_lowest_flag_marks_a_span(d: Seq<u8>)
    ensures
        parse_metric(d) matches Some((m, _)) ==> (parse_sized_text(d) matches Some((name, rest))
            && m.name == name && rest.len() > 0 && (m.is_span <==> rest[0] % 2 == 1)),
{
}

/// An entry that is read holds as many properties and metrics as its counts say.
pub proof fn lemma_counts_are_kept(d: Seq<u8>)
    ensures
        parse_entry(d) matches Some(e) ==> d.len() >= 2 && e.properties.len() == d[0] + 256 * d[1],
{
    if let Some((np, rest)) = parse_u16(d) {
        lemma_parsed_properties_count(rest, np);
    }
}

proof fn lemma_parsed_properties_count(d: Seq<u8>, n: nat)
    ensures
        parse_properties(d, n) matches Some((ps, _)) ==> ps.len() == n,
    decreases n,
{
    if n > 0 {
        lemma_parsed_properties_count(d, (n - 1) as nat);
    }
}

/// The value of what was parsed has each field under the same name, in order.
pub proof fn lemma_value_of_parsed_data(p: ParsedMetriqueData, i: int)
    ensures
        p@.properties.len() == p.properties@.len(),
        0 <= i < p.properties@.len() ==> p@.properties[i].0 == p.properties@[i].0@
            && p@.properties[i].1 == p.properties@[i].1@,
        p@.metrics.len() == p.metrics@.len(),
        0 <= i < p.metrics@.len() ==> p@.metrics[i].name == p.metrics@[i].name@
            && p@.metrics[i].is_span == p.metrics@[i].is_span && p@.metrics[i].unit
            == p.metrics@[i].unit@ && p@.metrics[i].values == p.metrics@[i].values@,
{
}

/// What fits: counts and the lengths of texts in two bytes, the length of a unit
/// in one.
pub proof fn lemma_what_fits(e: EntryModel, m: MetricModel)
    ensures
        metric_fits(m) <==> encode_utf8(m.name).len() < 65536 && encode_utf8(m.unit).len() < 256
            && m.values.len() < 65536,
        entry_fits(e) <==> e.properties.len() < 65536 && e.metrics.len() < 65536 && (forall|i: int|
            0 <= i < e.properties.len() ==> encode_utf8((#[trigger] e.properties[i]).0).len()
                < 65536 && encode_utf8(e.properties[i].1).len() < 65536) && (forall|i: int|
            0 <= i < e.metrics.len() ==> metric_fits(#[trigger] e.metrics[i])),
{
}

} // verus!
