//! The sink: its configuration, and the decisions that turn a record into a
//! datagram.
use vstd::prelude::*;
use vstd::string::{StrSliceExecFns, StringExecFns};
use vstd::utf8::encode_utf8;
use crate::clock::{format_stamp, now_millis};
use crate::facade::set_max_level;
use crate::filter::{Rule, enabled_under, resolve_spec, rule_key, sort_rules};
use crate::kv::{Pair, kv_text, render_kvs};
use crate::level::{Level, LevelFilter};
use crate::order::stable_sort;
use crate::route::{Tier, endpoint, endpoint_spec, sort_tiers, tier_key};
use crate::wire::{WireFmt, binary_frame, body_text, encode_binary, encode_text, text_line};

verus! {

/// A log record as the sink receives it.
pub struct Record {
    pub level: Level,
    /// The category; when empty, the module path stands in for it.
    pub target: String,
    pub module: String,
    pub message: String,
    /// Attributes, in the order in which they are rendered.
    pub kvs: Vec<Pair>,
}

/// One datagram to send: from which local address, to which remote one,
/// and its bytes.
pub struct Datagram {
    pub source: String,
    pub destination: String,
    pub payload: Vec<u8>,
}

/// The configuration of the sink. Sockets are named by their addresses.
pub struct UdpLogger {
    pub default_level: LevelFilter,
    pub module_levels: Vec<Rule>,
    pub default_source: String,
    pub sources: Vec<Tier>,
    pub default_destination: String,
    pub destinations: Vec<Tier>,
    pub wire_fmt: WireFmt,
}

/// The category a record is reported under.
pub open spec fn category_spec(rec: Record) -> Seq<char> {
    if rec.target@.len() == 0 {
        rec.module@
    } else {
        rec.target@
    }
}

/// The most verbose of the default threshold and the rule thresholds.
pub open spec fn max_threshold(rules: Seq<Rule>, default: LevelFilter) -> nat
    decreases rules.len(),
{
    if rules.len() == 0 {
        default.rank()
    } else {
        let m = max_threshold(rules.drop_last(), default);
        if rules.last().1.rank() > m {
            rules.last().1.rank()
        } else {
            m
        }
    }
}

/// The lower-case form of a string, as `str::to_lowercase` gives it.
pub uninterp spec fn lower_of(s: Seq<char>) -> Seq<char>;

/// Relies on str::to_lowercase: the result depends on the characters alone.
#[verifier::external_body]
fn lowercase(s: &str) -> (r: String)
    ensures
        r@ == lower_of(s@),
{
    s.to_lowercase()
}

/// The threshold a lower-case level name stands for.
pub open spec fn level_named(s: Seq<char>) -> Option<LevelFilter> {
    if s == seq!['t', 'r', 'a', 'c', 'e'] {
        Some(LevelFilter::Trace)
    } else if s == seq!['d', 'e', 'b', 'u', 'g'] {
        Some(LevelFilter::Debug)
    } else if s == seq!['i', 'n', 'f', 'o'] {
        Some(LevelFilter::Info)
    } else if s == seq!['w', 'a', 'r', 'n'] {
        Some(LevelFilter::Warn)
    } else if s == seq!['e', 'r', 'r', 'o', 'r'] {
        Some(LevelFilter::Error)
    } else {
        None
    }
}

/// The threshold named by `name`, which is taken as it stands (already in
/// lower case).
pub fn level_from_name(name: &str) -> (r: Option<LevelFilter>)
    ensures
        r == level_named(name@),
{
    let n = String::from_str(name);
    proof {
        reveal_strlit("trace");
        reveal_strlit("debug");
        reveal_strlit("info");
        reveal_strlit("warn");
        reveal_strlit("error");
    }
    if n == String::from_str("trace") {
        assert(name@ =~= seq!['t', 'r', 'a', 'c', 'e']);
        Some(LevelFilter::Trace)
    } else if n == String::from_str("debug") {
        assert(name@ =~= seq!['d', 'e', 'b', 'u', 'g']);
        Some(LevelFilter::Debug)
    } else if n == String::from_str("info") {
        assert(name@ =~= seq!['i', 'n', 'f', 'o']);
        Some(LevelFilter::Info)
    } else if n == String::from_str("warn") {
        assert(name@ =~= seq!['w', 'a', 'r', 'n']);
        Some(LevelFilter::Warn)
    } else if n == String::from_str("error") {
        assert(name@ =~= seq!['e', 'r', 'r', 'o', 'r']);
        Some(LevelFilter::Error)
    } else {
        assert(name@ != seq!['t', 'r', 'a', 'c', 'e']) by {
            if name@ == seq!['t', 'r', 'a', 'c', 'e'] {
                assert("trace"@ =~= name@);
            }
        }
        assert(name@ != seq!['d', 'e', 'b', 'u', 'g']) by {
            if name@ == seq!['d', 'e', 'b', 'u', 'g'] {
                assert("debug"@ =~= name@);
            }
        }
        assert(name@ != seq!['i', 'n', 'f', 'o']) by {
            if name@ == seq!['i', 'n', 'f', 'o'] {
                assert("info"@ =~= name@);
            }
        }
        assert(name@ != seq!['w', 'a', 'r', 'n']) by {
            if name@ == seq!['w', 'a', 'r', 'n'] {
                assert("warn"@ =~= name@);
            }
        }
        assert(name@ != seq!['e', 'r', 'r', 'o', 'r']) by {
            if name@ == seq!['e', 'r', 'r', 'o', 'r'] {
                assert("error"@ =~= name@);
            }
        }
        None
    }
}

impl Default for UdpLogger {
    fn default() -> (r: Self)
        ensures
            r.default_level == LevelFilter::Trace,
            r.module_levels@.len() == 0,
            r.default_source@ == "127.0.0.1:4000"@,
            r.sources@.len() == 0,
            r.default_destination@ == "127.0.0.1:4010"@,
            r.destinations@.len() == 0,
            r.wire_fmt == WireFmt::Uncompressed,
    {
        UdpLogger::new()
    }
}

impl UdpLogger {
    /// Whether a record of `level` in `target` passes the filter.
    pub open spec fn enabled_spec(&self, target: Seq<char>, level: Level) -> bool {
        level.rank() <= resolve_spec(self.module_levels@, self.default_level, target).rank()
    }

    /// The payload of `rec` at `ms` milliseconds, with `stamp` as the text
    /// of that instant; `None` where the binary length does not fit.
    pub open spec fn payload_spec(&self, rec: Record, ms: i64, stamp: Seq<char>) -> Option<Seq<u8>> {
        let cat = category_spec(rec);
        let kvs = kv_text(rec.kvs@);
        match self.wire_fmt {
            WireFmt::Uncompressed => Some(
                encode_utf8(text_line(stamp, rec.level, cat, rec.message@, kvs)),
            ),
            WireFmt::ByteBuffer => {
                let text = encode_utf8(body_text(cat, rec.message@, kvs));
                if text.len() <= u32::MAX {
                    Some(binary_frame(rec.level.rank() as u8, ms, text))
                } else {
                    None
                }
            },
        }
    }

    /// What is sent for `rec`: nothing where the filter holds it back,
    /// else the source, the destination and the payload.
    pub open spec fn plan_spec(&self, rec: Record, ms: i64, stamp: Seq<char>) -> Option<(Seq<char>, Seq<char>, Seq<u8>)> {
        if !self.enabled_spec(rec.target@, rec.level) {
            None
        } else {
            match self.payload_spec(rec, ms, stamp) {
                Some(p) => Some((
                    endpoint_spec(self.sources@, self.default_source@, rec.level),
                    endpoint_spec(self.destinations@, self.default_destination@, rec.level),
                    p,
                )),
                None => None,
            }
        }
    }

    /// A sink with threshold `Trace`, no rules or tiers, source
    /// `127.0.0.1:4000`, destination `127.0.0.1:4010` and the text layout.
    pub fn new() -> (r: Self)
        ensures
            r.default_level == LevelFilter::Trace,
            r.module_levels@.len() == 0,
            r.default_source@ == "127.0.0.1:4000"@,
            r.sources@.len() == 0,
            r.default_destination@ == "127.0.0.1:4010"@,
            r.destinations@.len() == 0,
            r.wire_fmt == WireFmt::Uncompressed,
    {
        UdpLogger {
            default_level: LevelFilter::Trace,
            module_levels: Vec::new(),
            default_source: String::from_str("127.0.0.1:4000"),
            sources: Vec::new(),
            default_destination: String::from_str("127.0.0.1:4010"),
            destinations: Vec::new(),
            wire_fmt: WireFmt::Uncompressed,
        }
    }

    /// Sets the default threshold.
    pub fn with_level(self, level: LevelFilter) -> (r: Self)
        ensures
            r == (UdpLogger { default_level: level, ..self }),
    {
        UdpLogger { default_level: level, ..self }
    }

    /// Adds a rule: categories starting with `target` are held to `level`.
    pub fn with_module_level(self, target: &str, level: LevelFilter) -> (r: Self)
        ensures
            r.module_levels@.len() == self.module_levels@.len() + 1,
            r.module_levels@.drop_last() == self.module_levels@,
            r.module_levels@.last().0@ == target@,
            r.module_levels@.last().1 == level,
            r.default_level == self.default_level,
            r.default_source == self.default_source,
            r.sources == self.sources,
            r.default_destination == self.default_destination,
            r.destinations == self.destinations,
            r.wire_fmt == self.wire_fmt,
    {
        let mut r = self;
        r.module_levels.push((String::from_str(target), level));
        proof {
            assert(r.module_levels@.drop_last() =~= self.module_levels@);
        }
        r
    }

    /// Sets the default local address to send from.
    pub fn with_source(self, source: &str) -> (r: Self)
        ensures
            r.default_source@ == source@,
            r.default_level == self.default_level,
            r.module_levels == self.module_levels,
            r.sources == self.sources,
            r.default_destination == self.default_destination,
            r.destinations == self.destinations,
            r.wire_fmt == self.wire_fmt,
    {
        UdpLogger { default_source: String::from_str(source), ..self }
    }

    /// Adds a source tier: records up to `level` may be sent from `source`.
    pub fn with_source_level(self, source: &str, level: LevelFilter) -> (r: Self)
        ensures
            r.sources@.len() == self.sources@.len() + 1,
            r.sources@.drop_last() == self.sources@,
            r.sources@.last().0 == level,
            r.sources@.last().1@ == source@,
            r.default_level == self.default_level,
            r.module_levels == self.module_levels,
            r.default_source == self.default_source,
            r.default_destination == self.default_destination,
            r.destinations == self.destinations,
            r.wire_fmt == self.wire_fmt,
    {
        let mut r = self;
        r.sources.push((level, String::from_str(source)));
        proof {
            assert(r.sources@.drop_last() =~= self.sources@);
        }
        r
    }

    /// Sets the default remote address to send to.
    pub fn with_destination(self, destination: &str) -> (r: Self)
        ensures
            r.default_destination@ == destination@,
            r.default_level == self.default_level,
            r.module_levels == self.module_levels,
            r.default_source == self.default_source,
            r.sources == self.sources,
            r.destinations == self.destinations,
            r.wire_fmt == self.wire_fmt,
    {
        UdpLogger { default_destination: String::from_str(destination), ..self }
    }

    /// Adds a destination tier: records up to `level` may be sent to
    /// `destination`.
    pub fn with_destination_level(self, destination: &str, level: LevelFilter) -> (r: Self)
        ensures
            r.destinations@.len() == self.destinations@.len() + 1,
            r.destinations@.drop_last() == self.destinations@,
            r.destinations@.last().0 == level,
            r.destinations@.last().1@ == destination@,
            r.default_level == self.default_level,
            r.module_levels == self.module_levels,
            r.default_source == self.default_source,
            r.sources == self.sources,
            r.default_destination == self.default_destination,
            r.wire_fmt == self.wire_fmt,
    {
        let mut r = self;
        r.destinations.push((level, String::from_str(destination)));
        proof {
            assert(r.destinations@.drop_last() =~= self.destinations@);
        }
        r
    }

    /// Sets the wire format.
    pub fn with_wire_fmt(self, wire_fmt: WireFmt) -> (r: Self)
        ensures
            r == (UdpLogger { wire_fmt, ..self }),
    {
        UdpLogger { wire_fmt, ..self }
    }

    /// Sets the default threshold from the value of an environment variable:
    /// `trace`, `debug`, `info`, `warn` or `error`, in any case; any other
    /// value leaves the configuration as it is.
    pub fn with_env_value(self, value: &str) -> (r: Self)
        ensures
            r.default_level == match level_named(lower_of(value@)) {
                Some(l) => l,
                None => self.default_level,
            },
            r.module_levels == self.module_levels,
            r.default_source == self.default_source,
            r.sources == self.sources,
            r.default_destination == self.default_destination,
            r.destinations == self.destinations,
            r.wire_fmt == self.wire_fmt,
    {
        let lowered = lowercase(value);
        match level_from_name(lowered.as_str()) {
            Some(l) => UdpLogger { default_level: l, ..self },
            None => self,
        }
    }

    /// The most verbose threshold that any rule or the default allows.
    pub fn max_configured_level(&self) -> (r: LevelFilter)
        ensures
            r.rank() == max_threshold(self.module_levels@, self.default_level),
    {
        let mut m = self.default_level;
        let mut i: usize = 0;
        while i < self.module_levels.len()
            invariant
                i <= self.module_levels@.len(),
                m.rank() == max_threshold(self.module_levels@.take(i as int), self.default_level),
            decreases self.module_levels@.len() - i,
        {
            proof {
                assert(self.module_levels@.take(i + 1).drop_last() =~= self.module_levels@.take(i as int));
            }
            m = self.module_levels[i].1.more_verbose(m);
            i += 1;
        }
        assert(self.module_levels@.take(self.module_levels@.len() as int) =~= self.module_levels@);
        m
    }

    /// Puts the rules in order from the longest prefix to the shortest and
    /// the tiers in order of ascending threshold, stably, and sets the
    /// process-wide ceiling to the most verbose configured threshold.
    pub fn partial_init(self) -> (r: Self)
        ensures
            r.module_levels@ == stable_sort(self.module_levels@, rule_key()),
            r.sources@ == stable_sort(self.sources@, tier_key()),
            r.destinations@ == stable_sort(self.destinations@, tier_key()),
            r.default_level == self.default_level,
            r.default_source == self.default_source,
            r.default_destination == self.default_destination,
            r.wire_fmt == self.wire_fmt,
    {
        let UdpLogger {
            default_level,
            module_levels,
            default_source,
            sources,
            default_destination,
            destinations,
            wire_fmt,
        } = self;
        let r = UdpLogger {
            default_level,
            module_levels: sort_rules(module_levels),
            default_source,
            sources: sort_tiers(sources),
            default_destination,
            destinations: sort_tiers(destinations),
            wire_fmt,
        };
        set_max_level(r.max_configured_level());
        r
    }

    /// Whether a record of `level` in `target` passes the rules and the
    /// default threshold.
    pub fn enabled(&self, target: &str, level: Level) -> (r: bool)
        ensures
            r == self.enabled_spec(target@, level),
    {
        enabled_under(&self.module_levels, self.default_level, target, level)
    }

    /// The address to send a record of `level` from.
    pub fn source_for(&self, level: Level) -> (r: &String)
        ensures
            r@ == endpoint_spec(self.sources@, self.default_source@, level),
    {
        endpoint(&self.sources, &self.default_source, level)
    }

    /// The address to send a record of `level` to.
    pub fn destination_for(&self, level: Level) -> (r: &String)
        ensures
            r@ == endpoint_spec(self.destinations@, self.default_destination@, level),
    {
        endpoint(&self.destinations, &self.default_destination, level)
    }

    /// The datagram for `rec` at `ms` milliseconds after the epoch, with
    /// `stamp` as the text of that instant.
    pub fn plan(&self, rec: &Record, ms: i64, stamp: &str) -> (r: Option<Datagram>)
        ensures
            r is None <==> self.plan_spec(*rec, ms, stamp@) is None,
            r matches Some(d) ==> self.plan_spec(*rec, ms, stamp@) == Some(
                (d.source@, d.destination@, d.payload@),
            ),
    {
        if !self.enabled(rec.target.as_str(), rec.level) {
            return None;
        }
        let category = if rec.target.as_str().is_empty() {
            rec.module.as_str()
        } else {
            rec.target.as_str()
        };
        let kvs = render_kvs(&rec.kvs);
        let payload = match self.wire_fmt {
            WireFmt::Uncompressed => {
                let line = encode_text(stamp, rec.level, category, rec.message.as_str(), kvs.as_str());
                line.as_str().as_bytes_vec()
            },
            WireFmt::ByteBuffer => {
                match encode_binary(ms, rec.level, category, rec.message.as_str(), kvs.as_str()) {
                    Some(f) => f,
                    None => {
                        return None;
                    },
                }
            },
        };
        let source = self.source_for(rec.level).clone();
        let destination = self.destination_for(rec.level).clone();
        Some(Datagram { source, destination, payload })
    }

    /// The datagram for `rec` at the current time, or `None` where the
    /// filter holds it back, the binary length does not fit, or the clock
    /// reads outside the range that can be written as a date.
    pub fn dispatch(&self, rec: &Record) -> (r: Option<Datagram>)
        ensures
            !self.enabled_spec(rec.target@, rec.level) ==> r is None,
            r matches Some(d) ==> exists|ms: i64, stamp: Seq<char>|
                #![trigger self.plan_spec(*rec, ms, stamp)]
                self.plan_spec(*rec, ms, stamp) == Some((d.source@, d.destination@, d.payload@)),
    {
        let ms = now_millis();
        match format_stamp(ms) {
            Some(stamp) => self.plan(rec, ms, stamp.as_str()),
            None => None,
        }
    }
}

/// Filtering is monotonic in severity: where a record of some level in a
/// category passes, a record of any more severe level in that category
/// passes too.
pub proof fn lemma_filter_monotonic(logger: UdpLogger, target: Seq<char>, severe: Level, verbose: Level)
    requires
        severe.rank() <= verbose.rank(),
        logger.enabled_spec(target, verbose),
    ensures
        logger.enabled_spec(target, severe),
{
}

} // verus!
