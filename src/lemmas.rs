use vstd::prelude::*;
use crate::path::{
    DOT, SEPARATOR, dir_part, extension_of, extension_suffix, lacks, last_index_of,
    lemma_last_index_lacks, lower_bytes, name_part, target_of,
};
use crate::extract::{creation_time, exif_times, ExifTimeTag, MediaMetadata};
use crate::time::{shown_in, strftime_bytes, Timestamp};
use crate::{item_plan, stem_of, ItemPlan, ItemProbe, Outcome, RunConfig, Statistics};

verus! {

proof fn lemma_last_index_append(a: Seq<u8>, b: Seq<u8>, c: u8)
    requires
        lacks(b, c),
    ensures
        last_index_of(a + b, c) == last_index_of(a, c),
    decreases b.len(),
{
    if b.len() == 0 {
        assert(a + b =~= a);
    } else {
        assert((a + b).drop_last() =~= a + b.drop_last());
        lemma_last_index_append(a, b.drop_last(), c);
    }
}

proof fn lemma_last_index_at_end(a: Seq<u8>, b: Seq<u8>, c: u8)
    requires
        a.len() > 0,
        a.last() == c,
        lacks(b, c),
    ensures
        last_index_of(a + b, c) == a.len() - 1,
{
    lemma_last_index_append(a, b, c);
}

proof fn lemma_lower_keeps(s: Seq<u8>)
    ensures
        lower_bytes(lower_bytes(s)) == lower_bytes(s),
        lacks(s, DOT) ==> lacks(lower_bytes(s), DOT),
        lacks(s, SEPARATOR) ==> lacks(lower_bytes(s), SEPARATOR),
{
    assert(lower_bytes(lower_bytes(s)) =~= lower_bytes(s));
}

/// The suffix of a path holds no separator, and a dot only in front.
proof fn lemma_suffix_shape(p: Seq<u8>)
    ensures
        lacks(extension_suffix(p), SEPARATOR),
        extension_suffix(p).len() > 0 ==> extension_suffix(p)[0] == DOT && lacks(
            extension_suffix(p).drop_first(),
            DOT,
        ),
        extension_suffix(p).len() > 0 ==> extension_suffix(p).drop_first() == lower_bytes(
            extension_suffix(p).drop_first(),
        ),
{
    let name = name_part(p);
    lemma_last_index_lacks(p, SEPARATOR);
    lemma_last_index_lacks(name, DOT);
    let l = last_index_of(p, SEPARATOR);
    assert(lacks(name, SEPARATOR)) by {
        if l == -1 {
            assert(name =~= p);
        }
    }
    match extension_of(name) {
        Some(e) => {
            if e.len() > 0 {
                let d = last_index_of(name, DOT);
                assert forall|k: int| 0 <= k < e.len() implies e[k] != SEPARATOR by {
                    assert(e[k] == name[d + 1 + k]);
                }
                lemma_lower_keeps(e);
                assert(extension_suffix(p).drop_first() =~= lower_bytes(e));
            }
        },
        None => {},
    }
}

/// The parts of the path that a file is renamed to.
proof fn lemma_target_parts(p: Seq<u8>, stem: Seq<u8>)
    requires
        lacks(stem, SEPARATOR),
    ensures
        dir_part(target_of(p, stem)) == dir_part(p),
        name_part(target_of(p, stem)) == stem + extension_suffix(p),
{
    let d = dir_part(p);
    let rest = stem + extension_suffix(p);
    let t = target_of(p, stem);
    lemma_suffix_shape(p);
    lemma_last_index_lacks(p, SEPARATOR);
    assert(lacks(rest, SEPARATOR)) by {
        assert forall|k: int| 0 <= k < rest.len() implies rest[k] != SEPARATOR by {
            if k >= stem.len() {
                assert(rest[k] == extension_suffix(p)[k - stem.len()]);
            }
        }
    }
    assert(t =~= d + rest);
    let l = last_index_of(p, SEPARATOR);
    if l >= 0 {
        assert(d.last() == p[l]);
        lemma_last_index_at_end(d, rest, SEPARATOR);
    } else {
        lemma_last_index_append(d, rest, SEPARATOR);
        lemma_last_index_lacks(d, SEPARATOR);
    }
    assert(dir_part(t) =~= d);
    assert(name_part(t) =~= rest);
}

/// Where the suffix is not empty, the extension of `stem` followed by it is
/// the suffix without its dot, as long as `stem` is not empty.
proof fn lemma_extension_after_stem(stem: Seq<u8>, suffix: Seq<u8>)
    requires
        stem.len() > 0,
        suffix.len() > 0,
        suffix[0] == DOT,
        lacks(suffix.drop_first(), DOT),
    ensures
        extension_of(stem + suffix) == Some(suffix.drop_first()),
{
    let name = stem + suffix;
    assert(name =~= (stem + seq![DOT]) + suffix.drop_first());
    lemma_last_index_at_end(stem + seq![DOT], suffix.drop_first(), DOT);
    assert(name.subrange(stem.len() + 1 as int, name.len() as int) =~= suffix.drop_first());
}

/// Whether the stem `stem` keeps its meaning when a file named by it is
/// renamed to it again: it holds no separator, is not empty where an
/// extension follows it, and gives no extension of its own where none does.
pub open spec fn stem_is_stable(p: Seq<u8>, stem: Seq<u8>) -> bool {
    &&& lacks(stem, SEPARATOR)
    &&& extension_suffix(p).len() > 0 ==> stem.len() > 0
    &&& extension_suffix(p).len() == 0 ==> extension_suffix(stem).len() == 0
}

/// Renaming is idempotent: the path that a file is renamed to is renamed to
/// itself for the same stem.
pub proof fn lemma_rename_idempotent(p: Seq<u8>, stem: Seq<u8>)
    requires
        stem_is_stable(p, stem),
    ensures
        target_of(target_of(p, stem), stem) == target_of(p, stem),
{
    let t = target_of(p, stem);
    lemma_target_parts(p, stem);
    lemma_suffix_shape(p);
    let suffix = extension_suffix(p);
    if suffix.len() > 0 {
        lemma_extension_after_stem(stem, suffix);
        assert(extension_of(name_part(t)) == Some(suffix.drop_first()));
        assert(extension_suffix(t) =~= seq![DOT] + lower_bytes(suffix.drop_first()));
        assert(extension_suffix(t) =~= suffix);
    } else {
        assert(name_part(t) =~= stem);
        lemma_last_index_lacks(stem, SEPARATOR);
        assert(name_part(stem) =~= stem);
        assert(extension_suffix(t) == extension_suffix(stem));
    }
    assert(target_of(t, stem) =~= t);
}

/// A renamed file keeps its extension, in ASCII lower case.
pub proof fn lemma_extension_lowercased(p: Seq<u8>, stem: Seq<u8>, e: Seq<u8>)
    requires
        lacks(stem, SEPARATOR),
        stem.len() > 0,
        extension_of(name_part(p)) == Some(e),
        e.len() > 0,
    ensures
        extension_of(name_part(target_of(p, stem))) == Some(lower_bytes(e)),
{
    lemma_target_parts(p, stem);
    lemma_suffix_shape(p);
    let suffix = extension_suffix(p);
    assert(suffix.drop_first() =~= lower_bytes(e));
    lemma_extension_after_stem(stem, suffix);
}

/// A file that a run renamed is skipped by the next run, which finds the
/// same creation time.
pub proof fn lemma_second_run_skips(config: RunConfig, p: Seq<u8>, t: Timestamp, target: Seq<u8>)
    requires
        item_plan(config, p, ItemProbe::Extracted(Ok(t))) == ItemPlan::Move(target),
        stem_of(config, t) matches Some(stem) && stem_is_stable(p, stem),
    ensures
        item_plan(config, target, ItemProbe::Extracted(Ok(t))) == ItemPlan::Count(Outcome::Skipped),
{
    let stem = stem_of(config, t).unwrap();
    lemma_rename_idempotent(p, stem);
}

/// A dry run moves no file; an item that a real run would move counts as
/// renamed.
pub proof fn lemma_dry_run_moves_nothing(config: RunConfig, p: Seq<u8>, probe: ItemProbe)
    requires
        config.dry_run,
    ensures
        !(item_plan(config, p, probe) is Move),
        item_plan(RunConfig { dry_run: false, ..config }, p, probe) is Move ==> item_plan(
            config,
            p,
            probe,
        ) == ItemPlan::Count(Outcome::Renamed),
{
}

/// The counters after an item's plan; `moved` tells whether a move that
/// was asked for went through.
pub open spec fn counted(s: Statistics, plan: ItemPlan, moved: bool) -> Statistics {
    match plan {
        ItemPlan::Ignore => s,
        ItemPlan::Count(o) => s.after(o),
        ItemPlan::Move(_) => s.after(if moved { Outcome::Renamed } else { Outcome::Failed }),
    }
}

/// The counters after processing the listed paths in order.
pub open spec fn run_counts(
    config: RunConfig,
    s: Statistics,
    paths: Seq<Seq<u8>>,
    probes: Seq<ItemProbe>,
    moves: Seq<bool>,
) -> Statistics
    decreases paths.len(),
{
    if paths.len() == 0 || probes.len() == 0 || moves.len() == 0 {
        s
    } else {
        run_counts(
            config,
            counted(s, item_plan(config, paths[0], probes[0]), moves[0]),
            paths.drop_first(),
            probes.drop_first(),
            moves.drop_first(),
        )
    }
}

/// Where every listed path is a directory, processing counts nothing: a run
/// without discovery errors then succeeds.
pub proof fn lemma_directories_only(
    config: RunConfig,
    s: Statistics,
    paths: Seq<Seq<u8>>,
    probes: Seq<ItemProbe>,
    moves: Seq<bool>,
)
    requires
        paths.len() == probes.len() == moves.len(),
        forall|i: int| 0 <= i < probes.len() ==> #[trigger] probes[i] is NotAFile,
    ensures
        run_counts(config, s, paths, probes, moves) == s,
    decreases paths.len(),
{
    if paths.len() > 0 {
        assert(probes[0] is NotAFile);
        let rest = probes.drop_first();
        assert forall|i: int| 0 <= i < rest.len() implies #[trigger] rest[i] is NotAFile by {
            assert(rest[i] == probes[i + 1]);
        }
        lemma_directories_only(config, s, paths.drop_first(), rest, moves.drop_first());
    }
}

/// The original capture time wins over every other EXIF time.
pub proof fn lemma_exif_original_time_first(exif: nom_exif::Exif)
    requires
        exif_times(exif).contains_key(ExifTimeTag::DateTimeOriginal),
    ensures
        creation_time(MediaMetadata::Exif(exif)) == Ok::<Timestamp, crate::extract::ExtractError>(
            exif_times(exif)[ExifTimeTag::DateTimeOriginal],
        ),
{
}

/// Without the original capture time and its offset tag, the creation date is
/// taken.
pub proof fn lemma_exif_create_date_last(exif: nom_exif::Exif)
    requires
        !exif_times(exif).contains_key(ExifTimeTag::DateTimeOriginal),
        !exif_times(exif).contains_key(ExifTimeTag::OffsetTimeOriginal),
        exif_times(exif).contains_key(ExifTimeTag::CreateDate),
    ensures
        creation_time(MediaMetadata::Exif(exif)) == Ok::<Timestamp, crate::extract::ExtractError>(
            exif_times(exif)[ExifTimeTag::CreateDate],
        ),
{
    reveal_with_fuel(crate::extract::first_exif_time, 3);
}

/// A configured offset replaces the file's own: the moment stays, the clock
/// time shown moves by the difference, and the stem is rendered in it.
pub proof fn lemma_offset_override(config: RunConfig, t: Timestamp, o: i32)
    requires
        config.time_offset == Some(o),
    ensures
        shown_in(t, config.time_offset).seconds == t.seconds,
        shown_in(t, config.time_offset).local_seconds() == t.local_seconds() + o - t.offset_seconds,
        stem_of(config, t) == strftime_bytes(config.format@, t.seconds as int, t.nanos as int, o as int),
{
}

} // verus!
