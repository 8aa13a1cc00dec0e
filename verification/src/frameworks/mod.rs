//! Stream-processing frameworks and their source parsers.
pub mod beam;
pub mod flink;
pub mod spark;

use crate::ir::{config_view, ConfigEntry, ConfigValue, ConfigValueView, NodeConfig};
use crate::pattern::{is_match, regex_is_match};
use crate::text::lowercase;
use vstd::prelude::*;

verus! {

/// A stream-processing framework.
#[derive(Debug, Clone, Copy, PartialEq, Eq, Structural)]
pub enum Framework {
    ApacheBeam,
    ApacheFlink,
    ApacheSpark,
    KafkaStreams,
    RayData,
}

/// The framework a (lowercased) name designates, if any.
pub open spec fn framework_named(l: Seq<char>) -> Option<Framework> {
    if l == "beam"@ || l == "apache_beam"@ {
        Some(Framework::ApacheBeam)
    } else if l == "flink"@ || l == "apache_flink"@ {
        Some(Framework::ApacheFlink)
    } else if l == "spark"@ || l == "apache_spark"@ {
        Some(Framework::ApacheSpark)
    } else if l == "kafka"@ || l == "kafka_streams"@ {
        Some(Framework::KafkaStreams)
    } else if l == "ray"@ || l == "ray_data"@ {
        Some(Framework::RayData)
    } else {
        None
    }
}

/// The display name of a framework.
pub open spec fn framework_title(f: Framework) -> Seq<char> {
    match f {
        Framework::ApacheBeam => "Apache Beam"@,
        Framework::ApacheFlink => "Apache Flink"@,
        Framework::ApacheSpark => "Apache Spark Structured Streaming"@,
        Framework::KafkaStreams => "Kafka Streams"@,
        Framework::RayData => "Ray Data"@,
    }
}

impl Framework {
    /// The framework a name designates, ignoring case (`beam`,
    /// `apache_beam`, `flink`, ...).
    pub fn from_string(s: &str) -> (r: Option<Framework>)
        ensures
            r == framework_named(crate::text::lower_text(s@)),
            crate::text::is_ascii_text(s@) ==> r == framework_named(crate::text::ascii_lower(s@)),
    {
        let l = crate::text::to_lowercase(s);
        let t = l.as_str();
        if crate::text::str_eq(t, "beam") || crate::text::str_eq(t, "apache_beam") {
            Some(Framework::ApacheBeam)
        } else if crate::text::str_eq(t, "flink") || crate::text::str_eq(t, "apache_flink") {
            Some(Framework::ApacheFlink)
        } else if crate::text::str_eq(t, "spark") || crate::text::str_eq(t, "apache_spark") {
            Some(Framework::ApacheSpark)
        } else if crate::text::str_eq(t, "kafka") || crate::text::str_eq(t, "kafka_streams") {
            Some(Framework::KafkaStreams)
        } else if crate::text::str_eq(t, "ray") || crate::text::str_eq(t, "ray_data") {
            Some(Framework::RayData)
        } else {
            None
        }
    }

    /// The framework's display name.
    pub fn to_string(&self) -> (r: &'static str)
        ensures
            r@ == framework_title(*self),
    {
        match self {
            Framework::ApacheBeam => "Apache Beam",
            Framework::ApacheFlink => "Apache Flink",
            Framework::ApacheSpark => "Apache Spark Structured Streaming",
            Framework::KafkaStreams => "Kafka Streams",
            Framework::RayData => "Ray Data",
        }
    }
}

// ---------------------------------------------------------------------------
// Configuration values recorded by the parsers
// ---------------------------------------------------------------------------

/// An optional count: the number, or null.
pub open spec fn u64_or_null(o: Option<u64>) -> ConfigValueView {
    match o {
        Some(n) => ConfigValueView::UInt(n),
        None => ConfigValueView::Null,
    }
}

/// An optional text: the string, or null.
pub open spec fn str_or_null(o: Option<Seq<char>>) -> ConfigValueView {
    match o {
        Some(s) => ConfigValueView::Str(s),
        None => ConfigValueView::Null,
    }
}

/// An optional flag: the boolean, or null.
pub open spec fn bool_or_null(o: Option<bool>) -> ConfigValueView {
    match o {
        Some(b) => ConfigValueView::Bool(b),
        None => ConfigValueView::Null,
    }
}

/// An integer: non-negative or negative.
pub open spec fn int_value(n: i64) -> ConfigValueView {
    if n >= 0 {
        ConfigValueView::UInt(n as u64)
    } else {
        ConfigValueView::NegInt(n)
    }
}

/// An optional integer: the integer, or null.
pub open spec fn i64_or_null(o: Option<i64>) -> ConfigValueView {
    match o {
        Some(n) => int_value(n),
        None => ConfigValueView::Null,
    }
}

pub fn u64_value(o: Option<u64>) -> (r: ConfigValue)
    ensures
        r@ == u64_or_null(o),
{
    match o {
        Some(n) => ConfigValue::UInt(n),
        None => ConfigValue::Null,
    }
}

pub fn str_value(o: Option<String>) -> (r: ConfigValue)
    ensures
        r@ == str_or_null(crate::ir::opt_str_view(o)),
{
    match o {
        Some(s) => ConfigValue::Str(s),
        None => ConfigValue::Null,
    }
}

pub fn bool_value(o: Option<bool>) -> (r: ConfigValue)
    ensures
        r@ == bool_or_null(o),
{
    match o {
        Some(b) => ConfigValue::Bool(b),
        None => ConfigValue::Null,
    }
}

pub fn i64_value(o: Option<i64>) -> (r: ConfigValue)
    ensures
        r@ == i64_or_null(o),
{
    match o {
        Some(n) => if n >= 0 {
            ConfigValue::UInt(n as u64)
        } else {
            ConfigValue::NegInt(n)
        },
        None => ConfigValue::Null,
    }
}

/// `c` with `key` set to `v` appended.
pub fn cfg_push(c: NodeConfig, key: &str, v: ConfigValue) -> (r: NodeConfig)
    ensures
        config_view(r.entries@) == config_view(c.entries@).push((key@, v@)),
{
    let ghost old_v = config_view(c.entries@);
    let ghost vv = v@;
    let r = c.with(key, v);
    proof {
        assert(config_view(r.entries@) =~= old_v.push((key@, vv)));
    }
    r
}

/// Position of the first line that `pattern` matches, if any.
pub open spec fn first_matching_line(pattern: Seq<char>, ls: Seq<Seq<char>>) -> Option<usize>
    decreases ls.len(),
{
    if ls.len() == 0 {
        None
    } else {
        match first_matching_line(pattern, ls.drop_last()) {
            Some(k) => Some(k),
            None => if regex_is_match(pattern, ls.last()) {
                Some((ls.len() - 1) as usize)
            } else {
                None
            },
        }
    }
}

/// Position of the first line that `pattern` matches.
pub fn first_matching_line_exec(pattern: &str, ls: &Vec<Vec<char>>) -> (r: Option<usize>)
    ensures
        r == first_matching_line(
            pattern@,
            Seq::new(ls@.len(), |k: int| ls@[k]@),
        ),
{
    let ghost all = Seq::new(ls@.len(), |k: int| ls@[k]@);
    let mut i: usize = 0;
    while i < ls.len()
        invariant
            i <= ls@.len(),
            all == Seq::new(ls@.len(), |k: int| ls@[k]@),
            first_matching_line(pattern@, all.take(i as int)) is None,
        decreases ls@.len() - i,
    {
        proof {
            assert(all.take(i + 1).drop_last() =~= all.take(i as int));
            assert(all.take(i + 1).last() == ls@[i as int]@);
        }
        let s = crate::text::string_of(ls[i].as_slice());
        if is_match(pattern, s.as_str()) {
            proof {
                lemma_first_matching_prefix(pattern@, all, i as int);
            }
            return Some(i);
        }
        i = i + 1;
    }
    proof {
        assert(all.take(ls@.len() as int) =~= all);
    }
    None
}

/// The first match found in a prefix is the first match overall.
proof fn lemma_first_matching_prefix(pattern: Seq<char>, ls: Seq<Seq<char>>, i: int)
    requires
        0 <= i < ls.len(),
        ls.len() <= usize::MAX,
        first_matching_line(pattern, ls.take(i)) is None,
        regex_is_match(pattern, ls[i]),
    ensures
        first_matching_line(pattern, ls) == Some(i as usize),
    decreases ls.len(),
{
    if i == ls.len() - 1 {
        assert(ls.drop_last() =~= ls.take(i));
    } else {
        assert(ls.drop_last().take(i) =~= ls.take(i));
        lemma_first_matching_prefix(pattern, ls.drop_last(), i);
    }
}

} // verus!
