use vstd::prelude::*;
use crate::key::{LineId, SoundKey};

verus! {

/// Value of an ASCII decimal digit.
pub open spec fn digit_value(c: char) -> nat {
    ((c as u32) as int - ('0' as u32) as int) as nat
}

pub open spec fn is_digit(c: char) -> bool {
    '0' <= c && c <= '9'
}

/// Value of a string of decimal digits, most significant first.
pub open spec fn decimal_value(s: Seq<char>) -> nat
    decreases s.len(),
{
    if s.len() == 0 {
        0
    } else {
        decimal_value(s.drop_last()) * 10 + digit_value(s.last())
    }
}

/// The digits of a line key: the key without one optional leading `+`.
pub open spec fn key_digits(s: Seq<char>) -> Seq<char> {
    if s.len() > 0 && s[0] == '+' {
        s.drop_first()
    } else {
        s
    }
}

/// The line a textual key names: an unsigned decimal integer that fits in
/// 16 bits, optionally preceded by `+`; `None` for any other text.
pub open spec fn line_id_of(s: Seq<char>) -> Option<u16> {
    let d = key_digits(s);
    if d.len() > 0 && (forall|i: int| 0 <= i < d.len() ==> is_digit(#[trigger] d[i]))
        && decimal_value(d) <= u16::MAX {
        Some(decimal_value(d) as u16)
    } else {
        None
    }
}

proof fn lemma_decimal_value_monotone(s: Seq<char>, i: int)
    requires
        0 <= i <= s.len(),
        forall|j: int| 0 <= j < s.len() ==> is_digit(#[trigger] s[j]),
    ensures
        decimal_value(s.subrange(0, i)) <= decimal_value(s),
    decreases s.len(),
{
    if i < s.len() {
        assert(s.drop_last() =~= s.subrange(0, s.len() - 1));
        if i < s.len() - 1 {
            assert(s.drop_last().subrange(0, i) =~= s.subrange(0, i));
        }
        lemma_decimal_value_monotone(s.drop_last(), i);
    } else {
        assert(s.subrange(0, i) =~= s);
    }
}

/// Parses the textual key of a configuration entry into the line it names.
pub fn parse_line_id(s: &str) -> (r: Option<LineId>)
    ensures
        r == line_id_of(s@),
{
    let n = s.unicode_len();
    let mut start: usize = 0;
    if n > 0 && s.get_char(0) == '+' {
        start = 1;
    }
    let ghost d = key_digits(s@);
    assert(d =~= s@.subrange(start as int, n as int));
    if start == n {
        return None;
    }
    let mut acc: u32 = 0;
    let mut i: usize = start;
    while i < n
        invariant
            start <= i <= n,
            n == s@.len(),
            d == key_digits(s@),
            d =~= s@.subrange(start as int, n as int),
            forall|j: int| 0 <= j < i - start ==> is_digit(#[trigger] d[j]),
            acc as nat == decimal_value(d.subrange(0, i - start)),
            acc <= u16::MAX,
        decreases n - i,
    {
        let c = s.get_char(i);
        if !('0' <= c && c <= '9') {
            assert(d[i - start] == c);
            assert(!is_digit(d[i - start]));
            return None;
        }
        let ghost prefix = d.subrange(0, i + 1 - start);
        assert(prefix.drop_last() =~= d.subrange(0, i - start));
        assert(prefix.last() == c);
        let next: u32 = acc * 10 + (c as u32 - '0' as u32);
        if next > 65535 {
            proof {
                if forall|j: int| 0 <= j < d.len() ==> is_digit(#[trigger] d[j]) {
                    assert(decimal_value(prefix) == next);
                    lemma_decimal_value_monotone(d, i + 1 - start);
                }
            }
            return None;
        }
        acc = next;
        i = i + 1;
    }
    assert(d.subrange(0, n - start) =~= d);
    Some(acc as u16)
}

/// Why a configuration cannot be used.
#[derive(Debug, PartialEq, Eq)]
pub enum ConfigError {
    /// An entry whose key does not name a line; holds the key.
    BadLineKey(String),
    /// Two entries whose keys name the same line; holds the line.
    DuplicateLine(LineId),
}

/// A configuration as plain text: each entry a key and a clip path.
pub open spec fn entries_view(entries: Seq<(String, String)>) -> Seq<(Seq<char>, Seq<char>)> {
    entries.map_values(|e: (String, String)| (e.0@, e.1@))
}

pub open spec fn all_keys_parse(entries: Seq<(Seq<char>, Seq<char>)>) -> bool {
    forall|i: int| 0 <= i < entries.len() ==> (#[trigger] line_id_of(entries[i].0)) is Some
}

/// The line that the key of entry `i` names.
pub open spec fn id_at(entries: Seq<(Seq<char>, Seq<char>)>, i: int) -> LineId {
    line_id_of(entries[i].0)->Some_0
}

pub open spec fn ids_distinct(entries: Seq<(Seq<char>, Seq<char>)>) -> bool {
    forall|i: int, j: int|
        0 <= i < j < entries.len() ==> #[trigger] id_at(entries, i) != #[trigger] id_at(entries, j)
}

/// A configuration is valid when every key names a line and no line is named twice.
pub open spec fn config_valid(entries: Seq<(Seq<char>, Seq<char>)>) -> bool {
    all_keys_parse(entries) && ids_distinct(entries)
}

/// The line bindings of a valid configuration, in entry order.
pub open spec fn configured_lines(entries: Seq<(Seq<char>, Seq<char>)>) -> Seq<(LineId, Seq<char>)> {
    Seq::new(entries.len(), |i: int| (id_at(entries, i), entries[i].1))
}

pub open spec fn lines_view(lines: Seq<(LineId, String)>) -> Seq<(LineId, Seq<char>)> {
    lines.map_values(|e: (LineId, String)| (e.0, e.1@))
}

pub open spec fn sources_view(sources: Seq<(SoundKey, String)>) -> Seq<(SoundKey, Seq<char>)> {
    sources.map_values(|e: (SoundKey, String)| (e.0, e.1@))
}

/// Name of the built-in clip bound to the power-on key.
pub open spec fn startup_clip() -> Seq<char> {
    "startup.wav"@
}

/// The sources to preload for some line bindings: one per line, in order,
/// then the power-on clip.
pub open spec fn power_on_sources(lines: Seq<(LineId, Seq<char>)>) -> Seq<(SoundKey, Seq<char>)> {
    line_keys(lines).push((SoundKey::PowerOn, startup_clip()))
}

/// Line bindings keyed as sounds.
pub open spec fn line_keys(lines: Seq<(LineId, Seq<char>)>) -> Seq<(SoundKey, Seq<char>)> {
    lines.map_values(|e: (LineId, Seq<char>)| (SoundKey::Gpio(e.0), e.1))
}

/// Checks the entries of a configuration and turns their keys into lines.
/// A key that names no line is reported first (the first such key); then
/// a line that two keys name.
pub fn line_sources(entries: &Vec<(String, String)>) -> (r: Result<Vec<(LineId, String)>, ConfigError>)
    ensures
        r is Ok <==> config_valid(entries_view(entries@)),
        match r {
            Ok(v) => lines_view(v@) == configured_lines(entries_view(entries@)),
            Err(ConfigError::BadLineKey(k)) => exists|j: int|
                0 <= j < entries@.len() && line_id_of(#[trigger] entries@[j].0@) is None
                    && k@ == entries@[j].0@ && forall|i: int|
                    0 <= i < j ==> (#[trigger] line_id_of(entries@[i].0@)) is Some,
            Err(ConfigError::DuplicateLine(id)) => all_keys_parse(entries_view(entries@))
                && exists|i: int, j: int|
                0 <= i < j < entries@.len() && #[trigger] id_at(entries_view(entries@), i) == id
                    && #[trigger] id_at(entries_view(entries@), j) == id,
        },
{
    let ghost ev = entries_view(entries@);
    let n = entries.len();
    let mut out: Vec<(LineId, String)> = Vec::new();
    let mut k: usize = 0;
    while k < n
        invariant
            n == entries@.len(),
            ev == entries_view(entries@),
            k <= n,
            out@.len() == k,
            forall|i: int| 0 <= i < k ==> (#[trigger] line_id_of(ev[i].0)) is Some,
            forall|i: int|
                0 <= i < k ==> #[trigger] out@[i] == (id_at(ev, i), out@[i].1) && out@[i].1@
                    == ev[i].1,
        decreases n - k,
    {
        let key = &entries[k].0;
        match parse_line_id(key.as_str()) {
            Some(id) => {
                out.push((id, entries[k].1.clone()));
            },
            None => {
                assert(ev[k as int].0 == entries@[k as int].0@);
                assert(line_id_of(entries@[k as int].0@) is None);
                assert forall|i: int| 0 <= i < k implies (#[trigger] line_id_of(
                    entries@[i].0@,
                )) is Some by {
                    assert(ev[i].0 == entries@[i].0@);
                };
                return Err(ConfigError::BadLineKey(key.clone()));
            },
        }
        k = k + 1;
    }
    assert(all_keys_parse(ev));
    let mut j: usize = 0;
    while j < n
        invariant
            n == entries@.len(),
            ev == entries_view(entries@),
            j <= n,
            out@.len() == n,
            all_keys_parse(ev),
            forall|i: int| 0 <= i < n ==> #[trigger] out@[i].0 == id_at(ev, i),
            forall|a: int, b: int| 0 <= a < b < j ==> #[trigger] id_at(ev, a) != #[trigger] id_at(ev, b),
        decreases n - j,
    {
        let mut i: usize = 0;
        while i < j
            invariant
                n == entries@.len(),
                ev == entries_view(entries@),
                all_keys_parse(ev),
                i <= j < n,
                out@.len() == n,
                forall|x: int| 0 <= x < n ==> #[trigger] out@[x].0 == id_at(ev, x),
                forall|a: int| 0 <= a < i ==> #[trigger] id_at(ev, a) != id_at(ev, j as int),
            decreases j - i,
        {
            if out[i].0 == out[j].0 {
                assert(id_at(ev, i as int) == id_at(ev, j as int));
                return Err(ConfigError::DuplicateLine(out[j].0));
            }
            i = i + 1;
        }
        j = j + 1;
    }
    assert(lines_view(out@) =~= configured_lines(ev));
    Ok(out)
}

/// Adds the power-on clip after the configured lines: the sources to preload.
pub fn with_power_on(lines: Vec<(LineId, String)>) -> (r: Vec<(SoundKey, String)>)
    ensures
        sources_view(r@) == power_on_sources(lines_view(lines@)),
{
    let n = lines.len();
    let mut out: Vec<(SoundKey, String)> = Vec::new();
    let mut k: usize = 0;
    while k < n
        invariant
            n == lines@.len(),
            k <= n,
            out@.len() == k,
            forall|i: int|
                0 <= i < k ==> #[trigger] out@[i].0 == SoundKey::Gpio(lines@[i].0) && out@[i].1@
                    == lines@[i].1@,
        decreases n - k,
    {
        out.push((SoundKey::Gpio(lines[k].0), lines[k].1.clone()));
        k = k + 1;
    }
    let startup = String::from_str("startup.wav");
    out.push((SoundKey::PowerOn, startup));
    assert(sources_view(out@) =~= power_on_sources(lines_view(lines@)));
    out
}

/// The file of the patch named `name`, or of the default patch.
pub fn patch_path(name: Option<&str>) -> (r: String)
    ensures
        r@ == "patches/"@ + match name {
            Some(n) => n@,
            None => "default"@,
        } + ".toml"@,
{
    let mut path = String::from_str("patches/");
    match name {
        Some(n) => path.append(n),
        None => path.append("default"),
    }
    path.append(".toml");
    path
}

} // verus!
