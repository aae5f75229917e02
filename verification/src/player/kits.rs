//! Conversions between ticks and milliseconds, volume steps, and the rules
//! by which subtitle files and container formats are listed.

use vstd::prelude::*;
use crate::player::consts::AV_TIME_BASE;
use crate::player::names::{
    bytes_eq, bytes_less, bytes_lt, bytes_start_with, holds_name, insert_name, insert_parts,
    is_part, lemma_bytes_lt_irreflexive, lemma_bytes_lt_transitive, sorted_names,
};
use crate::player::time_base::{rescale, rescale_spec, Rational};

verus! {

/// The length of one tick of the container clock.
pub open spec fn av_time_base_rational() -> Rational {
    Rational { num: 1, den: AV_TIME_BASE }
}

/// The length of one millisecond.
pub open spec fn millisec_time_base() -> Rational {
    Rational { num: 1, den: 1000 }
}

/// A timestamp in ticks of length `time_base`, in milliseconds.
pub open spec fn timestamp_to_millisecond_spec(timestamp: i64, time_base: Rational) -> i64 {
    rescale_spec(timestamp, time_base, millisec_time_base())
}

/// A time in milliseconds, in ticks of length `time_base`.
pub open spec fn millisecond_to_timestamp_spec(millisecond: i64, time_base: Rational) -> i64 {
    rescale_spec(millisecond, millisec_time_base(), time_base)
}

pub fn timestamp_to_millisecond(timestamp: i64, time_base: Rational) -> (ms: i64)
    ensures
        ms == timestamp_to_millisecond_spec(timestamp, time_base),
{
    rescale(timestamp, time_base, Rational { num: 1, den: 1000 })
}

pub fn millisecond_to_timestamp(millisecond: i64, time_base: Rational) -> (ts: i64)
    ensures
        ts == millisecond_to_timestamp_spec(millisecond, time_base),
{
    rescale(millisecond, Rational { num: 1, den: 1000 }, time_base)
}

/// Distance between two millisecond readings.
pub open spec fn millisecond_distance(a: i64, b: i64) -> int {
    if a <= b {
        b - a
    } else {
        a - b
    }
}

/// Whether two millisecond readings lie less than fifty milliseconds apart.
pub fn millisecond_approx_eq(a: i64, b: i64) -> (close: bool)
    ensures
        close == (millisecond_distance(a, b) < 50),
{
    if a <= b {
        (b as i128) - (a as i128) < 50
    } else {
        (a as i128) - (b as i128) < 50
    }
}

/// Volume levels in thousandths of full volume.
pub struct Volume {}

impl Volume {
    pub const MAX_INT_VOLUME: i64 = 1000;

    pub const MIN_INT_VOLUME: i64 = 0;

    pub const DEFAULT_INT_VOLUME: i64 = 500;

    pub const VOLUME_STEP: i64 = 5;

    /// One step louder, never above full volume.
    pub open spec fn plus_volume_spec(volume: i64) -> i64 {
        if volume + 5 > 1000 {
            1000
        } else {
            (volume + 5) as i64
        }
    }

    /// One step quieter, never below silence.
    pub open spec fn minus_volume_spec(volume: i64) -> i64 {
        if volume - 5 < 0 {
            0
        } else {
            (volume - 5) as i64
        }
    }

    pub fn plus_volume(volume: i64) -> (v: i64)
        ensures
            v == Self::plus_volume_spec(volume),
    {
        if volume > Self::MAX_INT_VOLUME - Self::VOLUME_STEP {
            Self::MAX_INT_VOLUME
        } else {
            volume + Self::VOLUME_STEP
        }
    }

    pub fn minus_volume(volume: i64) -> (v: i64)
        ensures
            v == Self::minus_volume_spec(volume),
    {
        if volume < Self::MIN_INT_VOLUME + Self::VOLUME_STEP {
            Self::MIN_INT_VOLUME
        } else {
            volume - Self::VOLUME_STEP
        }
    }
}

/// The name of a file in a directory, with the extension of that name.
#[derive(Clone, Debug)]
pub struct EntryName {
    pub name: Vec<u8>,
    pub extension: Option<Vec<u8>>,
}

/// Finds the subtitle files that belong to a media file.
pub struct SubTitle {}

/// Whether `extension` is one that subtitle files carry: `srt`, `ass`,
/// `ssa`, `sub` or `smi`.
pub open spec fn is_subtitle_extension(extension: Seq<u8>) -> bool {
    ||| extension == seq![0x73u8, 0x72u8, 0x74u8]
    ||| extension == seq![0x61u8, 0x73u8, 0x73u8]
    ||| extension == seq![0x73u8, 0x73u8, 0x61u8]
    ||| extension == seq![0x73u8, 0x75u8, 0x62u8]
    ||| extension == seq![0x73u8, 0x6du8, 0x69u8]
}

/// Whether `entry` is a subtitle file of the media file called `file_name`,
/// whose name without its extension is `stem`: another file of the same
/// directory whose name starts with the stem and ends in a subtitle
/// extension.
pub open spec fn is_sub_file(file_name: Seq<u8>, stem: Seq<u8>, entry: EntryName) -> bool {
    &&& entry.name@ != file_name
    &&& stem.is_prefix_of(entry.name@)
    &&& entry.extension is Some
    &&& is_subtitle_extension(entry.extension->0@)
}

/// Tests [`is_subtitle_extension`].
pub fn subtitle_extension(extension: &Vec<u8>) -> (known: bool)
    ensures
        known == is_subtitle_extension(extension@),
{
    if extension.len() != 3 {
        return false;
    }
    let a: u8 = extension[0];
    let b: u8 = extension[1];
    let c: u8 = extension[2];
    let known = (a == 0x73 && b == 0x72 && c == 0x74) || (a == 0x61 && b == 0x73 && c == 0x73) || (a
        == 0x73 && b == 0x73 && c == 0x61) || (a == 0x73 && b == 0x75 && c == 0x62) || (a == 0x73
        && b == 0x6d && c == 0x69);
    proof {
        if known {
            assert(extension@ =~= seq![a, b, c]);
        }
    }
    known
}

/// Whether the places picked stand in the dictionary order of the names
/// at those places.
pub open spec fn picks_sorted(entries: Seq<EntryName>, picks: Seq<usize>) -> bool {
    forall|k: int, l: int|
        0 <= k < l < picks.len() ==> !bytes_lt(
            entries[picks[l] as int].name@,
            entries[picks[k] as int].name@,
        )
}

/// Whether the places picked are places of `entries` below `upto`, each
/// picked once, every one a subtitle file.
pub open spec fn picks_sound(
    file_name: Seq<u8>,
    stem: Seq<u8>,
    entries: Seq<EntryName>,
    picks: Seq<usize>,
    upto: int,
) -> bool {
    &&& forall|k: int|
        0 <= k < picks.len() ==> (#[trigger] picks[k]) < upto && is_sub_file(
            file_name,
            stem,
            entries[picks[k] as int],
        )
    &&& forall|k: int, l: int| 0 <= k < l < picks.len() ==> picks[k] != picks[l]
}

/// Whether every subtitle file among the entries below `upto` is picked.
pub open spec fn picks_complete(
    file_name: Seq<u8>,
    stem: Seq<u8>,
    entries: Seq<EntryName>,
    picks: Seq<usize>,
    upto: int,
) -> bool {
    forall|i: int|
        0 <= i < upto && is_sub_file(file_name, stem, #[trigger] entries[i]) ==> picks.contains(
            i as usize,
        )
}

/// Puts the place `place` among places that stand in the order of their
/// names, behind every place whose name does not come after its own.
fn insert_pick(entries: &Vec<EntryName>, picks: &mut Vec<usize>, place: usize)
    requires
        place < entries@.len(),
        picks_sorted(entries@, old(picks)@),
        forall|k: int| 0 <= k < old(picks)@.len() ==> (#[trigger] old(picks)@[k]) < entries@.len(),
    ensures
        picks_sorted(entries@, final(picks)@),
        exists|at: int|
            0 <= at <= old(picks)@.len() && final(picks)@ == old(picks)@.insert(at, place),
{
    let mut at: usize = 0;
    let mut found: bool = false;
    while at < picks.len() && !found
        invariant
            at <= picks@.len(),
            picks@ == old(picks)@,
            place < entries@.len(),
            forall|k: int| 0 <= k < picks@.len() ==> (#[trigger] picks@[k]) < entries@.len(),
            forall|k: int|
                0 <= k < at ==> !bytes_lt(
                    entries@[place as int].name@,
                    entries@[picks@[k] as int].name@,
                ),
            found ==> at < picks@.len() && bytes_lt(
                entries@[place as int].name@,
                entries@[picks@[at as int] as int].name@,
            ),
        decreases picks@.len() - at + if found { 0int } else { 1int },
    {
        if bytes_less(&entries[place].name, &entries[picks[at]].name) {
            found = true;
        } else {
            at += 1;
        }
    }
    let ghost before = picks@;
    picks.insert(at, place);
    proof {
        let after = picks@;
        let name = entries@[place as int].name@;
        assert(after == before.insert(at as int, place));
        assert forall|k: int, l: int| 0 <= k < l < after.len() implies !bytes_lt(
            entries@[after[l] as int].name@,
            entries@[after[k] as int].name@,
        ) by {
            if l < at {
                assert(after[k] == before[k] && after[l] == before[l]);
            } else if l == at {
                assert(after[k] == before[k]);
            } else if k == at {
                // the name comes before what stood at its place, and what follows does not come before that
                let next = entries@[before[at as int] as int].name@;
                let later = entries@[before[l - 1] as int].name@;
                assert(after[l] == before[l - 1]);
                if bytes_lt(later, name) {
                    lemma_bytes_lt_transitive(later, name, next);
                    if l - 1 == at {
                        lemma_bytes_lt_irreflexive(next);
                    }
                }
            } else if k < at {
                assert(after[k] == before[k] && after[l] == before[l - 1]);
            } else {
                assert(after[k] == before[k - 1] && after[l] == before[l - 1]);
            }
        }
    }
}

impl SubTitle {
    /// Picks the subtitle files of a media file out of the listing of its
    /// directory. Returns the places in `entries` of the files picked:
    /// every entry that [`is_sub_file`] and no other, each once, in the
    /// dictionary order of their names.
    pub fn sub_files(file_name: &Vec<u8>, stem: &Vec<u8>, entries: &Vec<EntryName>) -> (picks: Vec<
        usize,
    >)
        ensures
            picks_sound(file_name@, stem@, entries@, picks@, entries@.len() as int),
            picks_complete(file_name@, stem@, entries@, picks@, entries@.len() as int),
            picks_sorted(entries@, picks@),
    {
        let mut picks: Vec<usize> = Vec::new();
        let mut i: usize = 0;
        while i < entries.len()
            invariant
                i <= entries@.len(),
                picks_sound(file_name@, stem@, entries@, picks@, i as int),
                picks_complete(file_name@, stem@, entries@, picks@, i as int),
                picks_sorted(entries@, picks@),
            decreases entries@.len() - i,
        {
            let entry = &entries[i];
            let picked = match &entry.extension {
                Some(extension) => !bytes_eq(&entry.name, file_name) && bytes_start_with(
                    &entry.name,
                    stem,
                ) && subtitle_extension(extension),
                None => false,
            };
            if picked {
                let ghost before = picks@;
                insert_pick(entries, &mut picks, i);
                proof {
                    let at = choose|at: int|
                        0 <= at <= before.len() && picks@ == before.insert(at, i);
                    assert forall|k: int| 0 <= k < picks@.len() implies (#[trigger] picks@[k]) < i
                        + 1 && is_sub_file(file_name@, stem@, entries@[picks@[k] as int]) by {
                        if k < at {
                            assert(picks@[k] == before[k]);
                        } else if k > at {
                            assert(picks@[k] == before[k - 1]);
                        }
                    }
                    assert forall|k: int, l: int| 0 <= k < l < picks@.len() implies picks@[k]
                        != picks@[l] by {
                        let from = |m: int| if m < at { m } else { m - 1 };
                        if k != at && l != at {
                            assert(picks@[k] == before[from(k)]);
                            assert(picks@[l] == before[from(l)]);
                        } else if k == at {
                            assert(picks@[l] == before[l - 1]);
                        } else {
                            assert(picks@[k] == before[k]);
                        }
                    }
                    assert forall|j: int|
                        0 <= j < i + 1 && is_sub_file(
                            file_name@,
                            stem@,
                            #[trigger] entries@[j],
                        ) implies picks@.contains(j as usize) by {
                        if j < i {
                            let k = choose|k: int| 0 <= k < before.len() && before[k] == j as usize;
                            if k < at {
                                assert(picks@[k] == j as usize);
                            } else {
                                assert(picks@[k + 1] == j as usize);
                            }
                        } else {
                            assert(picks@[at] == j as usize);
                        }
                    }
                }
            }
            i += 1;
        }
        picks
    }
}

/// The name that every list of container formats is made to hold.
pub open spec fn mkv() -> Seq<u8> {
    seq![0x6du8, 0x6bu8, 0x76u8]
}

/// Lists the container formats that can be opened.
pub struct FfmpegKit {}

impl FfmpegKit {
    /// The names of container formats for the file dialog: every name of every
    /// comma-parted list in `raw`, and `mkv`, each once, in dictionary order.
    pub fn demuxers(raw: &Vec<Vec<u8>>) -> (names: Vec<Vec<u8>>)
        ensures
            sorted_names(names@),
            forall|x: Seq<u8>|
                holds_name(names@, x) <==> (x == mkv() || exists|i: int|
                    0 <= i < raw@.len() && is_part(raw@[i]@, x)),
    {
        let mut names: Vec<Vec<u8>> = Vec::new();
        let mut i: usize = 0;
        while i < raw.len()
            invariant
                i <= raw@.len(),
                sorted_names(names@),
                forall|x: Seq<u8>|
                    holds_name(names@, x) <==> (exists|k: int|
                        0 <= k < i && is_part(raw@[k]@, x)),
            decreases raw@.len() - i,
        {
            let ghost before = names@;
            insert_parts(&mut names, &raw[i]);
            proof {
                assert forall|x: Seq<u8>|
                    holds_name(names@, x) <==> (exists|k: int|
                        0 <= k < i + 1 && is_part(raw@[k]@, x)) by {
                    if holds_name(before, x) {
                        let k = choose|k: int| 0 <= k < i && is_part(raw@[k]@, x);
                        assert(0 <= k < i + 1 && is_part(raw@[k]@, x));
                    }
                    if is_part(raw@[i as int]@, x) {
                        assert(0 <= i < i + 1 && is_part(raw@[i as int]@, x));
                    }
                    if exists|k: int| 0 <= k < i + 1 && is_part(raw@[k]@, x) {
                        let k = choose|k: int| 0 <= k < i + 1 && is_part(raw@[k]@, x);
                        if k < i {
                            assert(holds_name(before, x));
                        }
                    }
                }
            }
            i += 1;
        }
        let mut name: Vec<u8> = Vec::new();
        name.push(0x6d);
        name.push(0x6b);
        name.push(0x76);
        assert(name@ =~= mkv());
        insert_name(&mut names, name);
        names
    }
}

} // verus!
