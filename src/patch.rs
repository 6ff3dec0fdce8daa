use vstd::prelude::*;
use crate::key::{LineId, SoundKey};
use crate::config::{
    config_valid, configured_lines, id_at, line_keys, power_on_sources, sources_view,
};

verus! {

/// A clip of the patch: where it was read from, and its decoded samples.
pub struct Sound<C> {
    pub sound: String,
    pub sound_source: C,
}

/// Why a patch could not be preloaded.
#[derive(Debug, PartialEq, Eq)]
pub enum PreloadError {
    /// A source that could not be read or decoded; holds its path.
    Undecodable(String),
}

/// Whether `key` has an entry in `s`.
pub open spec fn has_key(s: Seq<(SoundKey, Seq<char>)>, key: SoundKey) -> bool {
    exists|i: int| 0 <= i < s.len() && (#[trigger] s[i]).0 == key
}

/// Whether `i` is the first entry of `s` under `key`.
pub open spec fn first_with_key(s: Seq<(SoundKey, Seq<char>)>, key: SoundKey, i: int) -> bool {
    0 <= i < s.len() && s[i].0 == key && forall|j: int| 0 <= j < i ==> (#[trigger] s[j]).0 != key
}

/// The lines among the keys of `s`, in order.
pub open spec fn gpio_lines(s: Seq<(SoundKey, Seq<char>)>) -> Seq<LineId>
    decreases s.len(),
{
    if s.len() == 0 {
        Seq::empty()
    } else {
        let rest = gpio_lines(s.drop_last());
        match s.last().0 {
            SoundKey::Gpio(id) => rest.push(id),
            SoundKey::PowerOn => rest,
        }
    }
}

/// The decoded clips of one run of the device, by key. Once built it is
/// never changed.
pub struct Patch<C> {
    sounds: Vec<(SoundKey, Sound<C>)>,
}

impl<C> Patch<C> {
    /// Each entry's key and the path its clip was read from, in preload order.
    pub closed spec fn entries(&self) -> Seq<(SoundKey, Seq<char>)> {
        self.sounds@.map_values(|e: (SoundKey, Sound<C>)| (e.0, e.1.sound@))
    }

    /// Each entry's decoded clip, in the order of `entries`.
    pub closed spec fn clips(&self) -> Seq<C> {
        self.sounds@.map_values(|e: (SoundKey, Sound<C>)| e.1.sound_source)
    }

    /// Builds the patch from the preload sources and the outcome of decoding
    /// each of them. Any source that was not decoded fails the whole patch:
    /// the first such source is reported and no partial patch is made.
    pub fn get(sources: Vec<(SoundKey, String)>, decoded: Vec<Option<C>>) -> (r: Result<
        Patch<C>,
        PreloadError,
    >)
        requires
            sources@.len() == decoded@.len(),
        ensures
            r is Ok <==> forall|i: int| 0 <= i < decoded@.len() ==> (#[trigger] decoded@[i]) is Some,
            match r {
                Ok(p) => p.entries() == sources_view(sources@) && p.clips().len() == decoded@.len()
                    && forall|i: int|
                    0 <= i < decoded@.len() ==> Some(#[trigger] p.clips()[i]) == decoded@[i],
                Err(PreloadError::Undecodable(path)) => exists|j: int|
                    0 <= j < decoded@.len() && j < sources@.len() && (#[trigger] decoded@[j]) is None && path@
                        == sources@[j].1@ && forall|i: int|
                        0 <= i < j ==> (#[trigger] decoded@[i]) is Some,
            },
    {
        let ghost src0 = sources@;
        let ghost dec0 = decoded@;
        let n = sources.len();
        let mut rest_sources = sources;
        let mut rest_decoded = decoded;
        let mut out: Vec<(SoundKey, Sound<C>)> = Vec::new();
        let mut k: usize = 0;
        while k < n
            invariant
                n == src0.len(),
                n == dec0.len(),
                src0 == sources@,
                dec0 == decoded@,
                k <= n,
                rest_sources@ == src0.subrange(k as int, n as int),
                rest_decoded@ == dec0.subrange(k as int, n as int),
                out@.len() == k,
                forall|i: int| 0 <= i < k ==> (#[trigger] dec0[i]) is Some,
                forall|i: int|
                    0 <= i < k ==> (#[trigger] out@[i]).0 == src0[i].0 && out@[i].1.sound@
                        == src0[i].1@ && Some(out@[i].1.sound_source) == dec0[i],
            decreases n - k,
        {
            let (key, path) = rest_sources.remove(0);
            let clip = rest_decoded.remove(0);
            assert(dec0[k as int] == clip);
            assert(src0[k as int] == (key, path));
            match clip {
                Some(c) => {
                    out.push((key, Sound { sound: path, sound_source: c }));
                },
                None => {
                    assert(dec0[k as int] is None);
                    return Err(PreloadError::Undecodable(path));
                },
            }
            k = k + 1;
        }
        let p = Patch { sounds: out };
        assert(p.entries() =~= sources_view(src0));
        Ok(p)
    }

    /// The clip under `key`: the first entry with that key.
    pub fn sound(&self, key: SoundKey) -> (r: Option<&Sound<C>>)
        ensures
            r is Some <==> has_key(self.entries(), key),
            r matches Some(s) ==> exists|i: int|
                first_with_key(self.entries(), key, i) && s.sound@ == self.entries()[i].1
                    && s.sound_source == #[trigger] self.clips()[i],
    {
        let n = self.sounds.len();
        let mut k: usize = 0;
        while k < n
            invariant
                n == self.sounds@.len(),
                k <= n,
                forall|j: int| 0 <= j < k ==> (#[trigger] self.entries()[j]).0 != key,
            decreases n - k,
        {
            if self.sounds[k].0 == key {
                let ghost e = self.entries();
                assert(e[k as int].0 == key);
                assert(first_with_key(e, key, k as int));
                assert(self.clips()[k as int] == self.sounds@[k as int].1.sound_source);
                return Some(&self.sounds[k].1);
            }
            k = k + 1;
        }
        assert(!has_key(self.entries(), key));
        None
    }

    /// The lines of the patch, in preload order: those the poll loop watches.
    pub fn lines(&self) -> (r: Vec<LineId>)
        ensures
            r@ == gpio_lines(self.entries()),
    {
        let n = self.sounds.len();
        let mut out: Vec<LineId> = Vec::new();
        let mut k: usize = 0;
        while k < n
            invariant
                n == self.sounds@.len(),
                k <= n,
                out@ == gpio_lines(self.entries().subrange(0, k as int)),
            decreases n - k,
        {
            let ghost e = self.entries();
            assert(e.subrange(0, k + 1).drop_last() =~= e.subrange(0, k as int));
            match self.sounds[k].0 {
                SoundKey::Gpio(id) => out.push(id),
                SoundKey::PowerOn => {},
            }
            k = k + 1;
        }
        assert(self.entries().subrange(0, n as int) =~= self.entries());
        out
    }
}

proof fn lemma_gpio_lines_of_line_keys(lines: Seq<(LineId, Seq<char>)>)
    ensures
        gpio_lines(line_keys(lines)) == lines.map_values(|e: (LineId, Seq<char>)| e.0),
    decreases lines.len(),
{
    if lines.len() > 0 {
        assert(line_keys(lines).drop_last() =~= line_keys(lines.drop_last()));
        lemma_gpio_lines_of_line_keys(lines.drop_last());
        assert(lines.map_values(|e: (LineId, Seq<char>)| e.0) =~= lines.drop_last().map_values(
            |e: (LineId, Seq<char>)| e.0,
        ).push(lines.last().0));
    } else {
        assert(lines.map_values(|e: (LineId, Seq<char>)| e.0) =~= Seq::empty());
    }
}

/// Preloading a valid configuration leaves no configured line without a clip:
/// in the preload sources, each line that an entry names is bound first to
/// that entry's clip path, the power-on clip is bound as well, and the lines
/// of the sources, which the poll loop watches, are exactly the configured
/// lines in entry order.
pub proof fn lemma_configured_lines_preloaded(entries: Seq<(Seq<char>, Seq<char>)>)
    requires
        config_valid(entries),
    ensures
        forall|i: int|
            0 <= i < entries.len() ==> first_with_key(
                power_on_sources(configured_lines(entries)),
                SoundKey::Gpio(#[trigger] id_at(entries, i)),
                i,
            ) && power_on_sources(configured_lines(entries))[i].1 == entries[i].1,
        has_key(power_on_sources(configured_lines(entries)), SoundKey::PowerOn),
        gpio_lines(power_on_sources(configured_lines(entries))) == Seq::new(
            entries.len(),
            |i: int| id_at(entries, i),
        ),
{
    let lines = configured_lines(entries);
    let s = power_on_sources(lines);
    assert forall|i: int| 0 <= i < entries.len() implies first_with_key(
        s,
        SoundKey::Gpio(#[trigger] id_at(entries, i)),
        i,
    ) && s[i].1 == entries[i].1 by {
        assert forall|j: int| 0 <= j < i implies (#[trigger] s[j]).0 != SoundKey::Gpio(
            id_at(entries, i),
        ) by {
            assert(id_at(entries, j) != id_at(entries, i));
        };
    };
    assert(s[s.len() - 1].0 == SoundKey::PowerOn);
    assert(s.drop_last() =~= line_keys(lines));
    lemma_gpio_lines_of_line_keys(lines);
    assert(lines.map_values(|e: (LineId, Seq<char>)| e.0) =~= Seq::new(
        entries.len(),
        |i: int| id_at(entries, i),
    ));
}

} // verus!
