//! Curve configuration: per-GPU point lists, and the legacy plain-text format
//! of one `temperature speed` pair per line.
use vstd::prelude::*;
use crate::text::{
    chars_of,
    contains,
    contains_chars,
    parse_u16,
    parse_u16_chars,
    split,
    split_chars,
    starts_with,
    starts_with_chars,
    trim,
    trim_chars,
    words,
    words_of,
};

verus! {

/// Access to the curve points configured for each GPU.
pub trait Curve {
    /// `id` names a GPU that the configuration covers.
    spec fn has_gpu(&self, id: int) -> bool;

    /// The points configured for GPU `id`.
    spec fn points_of(&self, id: int) -> Seq<(u16, u16)>;

    /// Whether GPU `id` is enabled.
    spec fn enabled_of(&self, id: int) -> bool;

    /// The points configured for GPU `id`.
    fn points(&self, id: usize) -> (r: &Vec<(u16, u16)>)
        requires
            self.has_gpu(id as int),
        ensures
            r@ == self.points_of(id as int),
    ;

    /// Whether GPU `id` is enabled.
    fn enabled(&self, id: usize) -> (r: bool)
        requires
            self.has_gpu(id as int),
        ensures
            r == self.enabled_of(id as int),
    ;
}

/// A configuration, in the structured format or in the legacy one.
pub enum Config {
    Toml(GpuConfig<TomlConf>),
    Legacy(GpuConfig<LegacyConf>),
}

/// The entries of a configuration, one per GPU.
pub struct GpuConfig<T> {
    pub gpus: Vec<T>,
}

/// The default of a GPU entry's `enabled` flag.
pub fn true_() -> (r: bool)
    ensures
        r,
{
    true
}

/// A GPU entry of the structured format.
pub struct TomlConf {
    pub id: u32,
    pub enabled: bool,
    pub points: Vec<(u16, u16)>,
}

/// The single implicit GPU entry of the legacy format.
pub struct LegacyConf {
    pub points: Vec<(u16, u16)>,
}

impl Curve for Config {
    /// A structured configuration covers the GPUs of its entries; a legacy
    /// one applies its single entry to every GPU.
    open spec fn has_gpu(&self, id: int) -> bool {
        match self {
            Config::Toml(conf) => 0 <= id < conf.gpus@.len(),
            Config::Legacy(conf) => 0 <= id && conf.gpus@.len() > 0,
        }
    }

    open spec fn points_of(&self, id: int) -> Seq<(u16, u16)> {
        match self {
            Config::Toml(conf) => conf.gpus@[id].points@,
            Config::Legacy(conf) => conf.gpus@[0].points@,
        }
    }

    open spec fn enabled_of(&self, id: int) -> bool {
        match self {
            Config::Toml(conf) => conf.gpus@[id].enabled,
            Config::Legacy(_) => true,
        }
    }

    fn points(&self, id: usize) -> (r: &Vec<(u16, u16)>) {
        match self {
            Config::Toml(conf) => &conf.gpus[id].points,
            Config::Legacy(conf) => &conf.gpus[0].points,
        }
    }

    fn enabled(&self, id: usize) -> (r: bool) {
        match self {
            Config::Toml(conf) => conf.gpus[id].enabled,
            Config::Legacy(_) => true,
        }
    }
}

/// The text that opens a GPU table of the structured format.
pub open spec fn gpu_tag() -> Seq<char> {
    seq!['[', 'g', 'p', 'u', ']']
}

/// The key of a point list in the structured format.
pub open spec fn points_tag() -> Seq<char> {
    seq!['p', 'o', 'i', 'n', 't', 's']
}

/// The line is a comment: its first non-blank character is `#`.
pub open spec fn is_comment(line: Seq<char>) -> bool {
    starts_with(trim(line), seq!['#'])
}

/// The line belongs to the structured format: it is no comment, and it holds
/// a GPU table header or starts with a point list key.
pub open spec fn structured_line(line: Seq<char>) -> bool {
    !is_comment(line) && (contains(trim(line), gpu_tag()) || starts_with(trim(line), points_tag()))
}

/// The point that a line of the legacy format gives: the first two words of a
/// non-comment line, when both are 16-bit decimal numbers.
pub open spec fn line_point(line: Seq<char>) -> Option<(u16, u16)> {
    let w = words(line);
    if is_comment(line) || w.len() < 2 {
        None
    } else {
        match (parse_u16(w[0]), parse_u16(w[1])) {
            (Some(x), Some(y)) => Some((x, y)),
            _ => None,
        }
    }
}

/// The points of the legacy format that the lines give, in order.
pub open spec fn legacy_points(lines: Seq<Seq<char>>) -> Seq<(u16, u16)>
    decreases lines.len(),
{
    if lines.len() == 0 {
        seq![]
    } else {
        let p = legacy_points(lines.drop_last());
        match line_point(lines.last()) {
            Some(pt) => p.push(pt),
            None => p,
        }
    }
}

/// The lines of `conf`. A `\r` before a line break is whitespace and is
/// trimmed with the rest.
pub open spec fn lines_of(conf: Seq<char>) -> Seq<Seq<char>> {
    split(conf, '\n')
}

/// The message of a legacy configuration with fewer than two points.
pub open spec fn too_few_points_message() -> Seq<char> {
    "At least two points are required for the curve"@
}

/// The text may be a legacy configuration: no line that is not a comment
/// opens a GPU table or starts with a point list key.
pub open spec fn legacy_like(conf: Seq<char>) -> bool {
    forall|i: int| 0 <= i < lines_of(conf).len() ==> !structured_line(#[trigger] lines_of(conf)[i])
}

/// Whether the text may be a legacy configuration.
pub fn might_be_legacy_string(conf: &str) -> (r: bool)
    ensures
        r == legacy_like(conf@),
{
    let chars = chars_of(conf);
    let lines = split_chars(&chars, '\n');
    let hash: Vec<char> = vec!['#'];
    let gpu: Vec<char> = vec!['[', 'g', 'p', 'u', ']'];
    let points: Vec<char> = vec!['p', 'o', 'i', 'n', 't', 's'];
    assert(hash@ =~= seq!['#']);
    assert(gpu@ =~= gpu_tag());
    assert(points@ =~= points_tag());
    let mut i: usize = 0;
    while i < lines.len()
        invariant
            lines@.len() == lines_of(conf@).len(),
            forall|k: int| 0 <= k < lines@.len() ==> #[trigger] lines@[k]@ == lines_of(conf@)[k],
            hash@ == seq!['#'],
            gpu@ == gpu_tag(),
            points@ == points_tag(),
            i <= lines@.len(),
            forall|k: int| 0 <= k < i ==> !structured_line(#[trigger] lines_of(conf@)[k]),
        decreases lines@.len() - i,
    {
        let trimmed = trim_chars(&lines[i]);
        if !starts_with_chars(&trimmed, &hash) {
            if contains_chars(&trimmed, &gpu) || starts_with_chars(&trimmed, &points) {
                assert(structured_line(lines_of(conf@)[i as int]));
                return false;
            }
        }
        i = i + 1;
    }
    true
}

/// The point that one line of the legacy format gives.
fn parse_line(line: &Vec<char>) -> (r: Option<(u16, u16)>)
    ensures
        r == line_point(line@),
{
    let trimmed = trim_chars(line);
    let hash: Vec<char> = vec!['#'];
    assert(hash@ =~= seq!['#']);
    if starts_with_chars(&trimmed, &hash) {
        return None;
    }
    let parts = words_of(line);
    if parts.len() < 2 {
        return None;
    }
    let x = parse_u16_chars(&parts[0]);
    let y = parse_u16_chars(&parts[1]);
    match (x, y) {
        (Some(x), Some(y)) => Some((x, y)),
        _ => None,
    }
}

/// Reads a legacy configuration: one `temperature speed` pair per line;
/// comments and lines that do not start with two numbers are skipped. At
/// least two points are required.
pub fn from_legacy_string(conf: &str) -> (r: Result<Config, String>)
    ensures
        legacy_points(lines_of(conf@)).len() < 2 ==> (r matches Err(e) && e@
            == too_few_points_message()),
        legacy_points(lines_of(conf@)).len() >= 2 ==> (r matches Ok(Config::Legacy(g))
            && g.gpus@.len() == 1 && g.gpus@[0].points@ == legacy_points(lines_of(conf@))),
{
    let chars = chars_of(conf);
    let lines = split_chars(&chars, '\n');
    let mut curve: Vec<(u16, u16)> = Vec::new();
    let mut i: usize = 0;
    while i < lines.len()
        invariant
            lines@.len() == lines_of(conf@).len(),
            forall|k: int| 0 <= k < lines@.len() ==> #[trigger] lines@[k]@ == lines_of(conf@)[k],
            i <= lines@.len(),
            curve@ == legacy_points(lines_of(conf@).subrange(0, i as int)),
        decreases lines@.len() - i,
    {
        let ghost pre = lines_of(conf@).subrange(0, i as int);
        assert(lines_of(conf@).subrange(0, i + 1).drop_last() =~= pre);
        match parse_line(&lines[i]) {
            Some(pt) => curve.push(pt),
            None => {},
        }
        i = i + 1;
    }
    assert(lines_of(conf@).subrange(0, lines@.len() as int) =~= lines_of(conf@));
    if curve.len() < 2 {
        Err(String::from_str("At least two points are required for the curve"))
    } else {
        let gpus = vec![LegacyConf { points: curve }];
        Ok(Config::Legacy(GpuConfig { gpus }))
    }
}

/// The configuration that a text gives, once the structured format has been
/// tried on it with outcome `structured`: that configuration if the text was
/// read; otherwise the legacy reading of a text that may be legacy, and else
/// the structured reader's error.
pub fn from_structured_or_legacy(conf: &str, structured: Result<Config, String>) -> (r: Result<
    Config,
    String,
>)
    ensures
        structured is Ok ==> r == structured,
        structured is Err && legacy_like(conf@) && legacy_points(lines_of(conf@)).len() < 2 ==> (
        r matches Err(e) && e@ == too_few_points_message()),
        structured is Err && legacy_like(conf@) && legacy_points(lines_of(conf@)).len() >= 2 ==> (
        r matches Ok(Config::Legacy(g)) && g.gpus@.len() == 1 && g.gpus@[0].points@
            == legacy_points(lines_of(conf@))),
        !legacy_like(conf@) ==> match structured {
            Err(why) => r matches Err(e) && e@ == "config parsing failed: "@ + why@,
            Ok(_) => true,
        },
{
    match structured {
        Ok(c) => Ok(c),
        Err(why) => {
            if might_be_legacy_string(conf) {
                from_legacy_string(conf)
            } else {
                let mut e = String::from_str("config parsing failed: ");
                e.append(why.as_str());
                Err(e)
            }
        },
    }
}

} // verus!
