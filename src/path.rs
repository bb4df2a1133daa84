use vstd::prelude::*;

verus! {

/// The byte of `/`, the path separator.
pub const SEPARATOR: u8 = 47;

/// The byte of `.`, which starts an extension.
pub const DOT: u8 = 46;

/// ASCII lower case of one byte; other bytes are kept.
pub open spec fn lower_byte(b: u8) -> u8 {
    if 65 <= b <= 90 {
        (b + 32) as u8
    } else {
        b
    }
}

/// ASCII lower case of a byte string.
pub open spec fn lower_bytes(s: Seq<u8>) -> Seq<u8> {
    s.map_values(|b: u8| lower_byte(b))
}

/// Index of the last occurrence of `c` in `s`, or -1.
pub open spec fn last_index_of(s: Seq<u8>, c: u8) -> int
    decreases s.len(),
{
    if s.len() == 0 {
        -1
    } else if s.last() == c {
        s.len() - 1
    } else {
        last_index_of(s.drop_last(), c)
    }
}

/// Everything up to and including the last separator.
pub open spec fn dir_part(p: Seq<u8>) -> Seq<u8> {
    p.subrange(0, last_index_of(p, SEPARATOR) + 1)
}

/// The file name: what follows the last separator.
pub open spec fn name_part(p: Seq<u8>) -> Seq<u8> {
    p.subrange(last_index_of(p, SEPARATOR) + 1, p.len() as int)
}

/// The extension of a file name: what follows its last dot, unless that dot
/// opens the name.
pub open spec fn extension_of(name: Seq<u8>) -> Option<Seq<u8>> {
    let d = last_index_of(name, DOT);
    if d > 0 {
        Some(name.subrange(d + 1, name.len() as int))
    } else {
        None
    }
}

/// What a renamed file gets after the new stem: a dot and the old extension in
/// lower case, where the old name had a non-empty extension.
pub open spec fn extension_suffix(p: Seq<u8>) -> Seq<u8> {
    match extension_of(name_part(p)) {
        Some(e) => if e.len() > 0 {
            seq![DOT] + lower_bytes(e)
        } else {
            Seq::empty()
        },
        None => Seq::empty(),
    }
}

/// The path that `p` is renamed to for the new stem `stem`: same directory,
/// the stem, and the extension of `p` in lower case.
pub open spec fn target_of(p: Seq<u8>, stem: Seq<u8>) -> Seq<u8> {
    dir_part(p) + stem + extension_suffix(p)
}

/// Lexicographic order on byte strings, a proper prefix first.
pub open spec fn lex_le(a: Seq<u8>, b: Seq<u8>) -> bool
    decreases a.len(),
{
    if a.len() == 0 {
        true
    } else if b.len() == 0 {
        false
    } else if a[0] != b[0] {
        a[0] < b[0]
    } else {
        lex_le(a.drop_first(), b.drop_first())
    }
}

/// The order of paths in a listing: by their ASCII lower case form.
pub open spec fn key_le(a: Seq<u8>, b: Seq<u8>) -> bool {
    lex_le(lower_bytes(a), lower_bytes(b))
}

pub proof fn lemma_lex_total(a: Seq<u8>, b: Seq<u8>)
    ensures
        lex_le(a, b) || lex_le(b, a),
    decreases a.len(),
{
    if a.len() > 0 && b.len() > 0 && a[0] == b[0] {
        lemma_lex_total(a.drop_first(), b.drop_first());
    }
}

pub proof fn lemma_lex_transitive(a: Seq<u8>, b: Seq<u8>, c: Seq<u8>)
    requires
        lex_le(a, b),
        lex_le(b, c),
    ensures
        lex_le(a, c),
    decreases a.len(),
{
    if a.len() > 0 && b.len() > 0 && c.len() > 0 && a[0] == b[0] && b[0] == c[0] {
        lemma_lex_transitive(a.drop_first(), b.drop_first(), c.drop_first());
    }
}

pub proof fn lemma_key_total(a: Seq<u8>, b: Seq<u8>)
    ensures
        key_le(a, b) || key_le(b, a),
{
    lemma_lex_total(lower_bytes(a), lower_bytes(b));
}

pub proof fn lemma_key_transitive(a: Seq<u8>, b: Seq<u8>, c: Seq<u8>)
    requires
        key_le(a, b),
        key_le(b, c),
    ensures
        key_le(a, c),
{
    lemma_lex_transitive(lower_bytes(a), lower_bytes(b), lower_bytes(c));
}

pub fn lower_byte_exec(b: u8) -> (r: u8)
    ensures
        r == lower_byte(b),
{
    if 65 <= b && b <= 90 {
        b + 32
    } else {
        b
    }
}

/// Whether `a` comes no later than `b` in a listing.
pub fn lowercase_le(a: &Vec<u8>, b: &Vec<u8>) -> (r: bool)
    ensures
        r == key_le(a@, b@),
{
    let mut i: usize = 0;
    assert(lower_bytes(a@).subrange(0, a.len() as int) =~= lower_bytes(a@));
    assert(lower_bytes(b@).subrange(0, b.len() as int) =~= lower_bytes(b@));
    while i < a.len() && i < b.len()
        invariant
            i <= a.len(),
            i <= b.len(),
            key_le(a@, b@) == lex_le(
                lower_bytes(a@).subrange(i as int, a.len() as int),
                lower_bytes(b@).subrange(i as int, b.len() as int),
            ),
        decreases a.len() - i,
    {
        let x = lower_byte_exec(a[i]);
        let y = lower_byte_exec(b[i]);
        if x != y {
            return x < y;
        }
        proof {
            let sa = lower_bytes(a@).subrange(i as int, a.len() as int);
            let sb = lower_bytes(b@).subrange(i as int, b.len() as int);
            assert(sa.drop_first() =~= lower_bytes(a@).subrange(i + 1, a.len() as int));
            assert(sb.drop_first() =~= lower_bytes(b@).subrange(i + 1, b.len() as int));
        }
        i = i + 1;
    }
    proof {
        assert(lower_bytes(a@).subrange(i as int, a.len() as int).len() == a.len() - i);
    }
    i == a.len()
}

/// Index in `s` of the last `c` at or after `lo`.
pub fn find_last_from(s: &Vec<u8>, lo: usize, c: u8) -> (r: Option<usize>)
    requires
        lo <= s.len(),
    ensures
        match r {
            Some(i) => lo <= i && i - lo == last_index_of(s@.subrange(lo as int, s.len() as int), c),
            None => last_index_of(s@.subrange(lo as int, s.len() as int), c) == -1,
        },
{
    let ghost whole = s@.subrange(lo as int, s.len() as int);
    let mut i: usize = s.len();
    assert(whole.subrange(0, whole.len() as int) =~= whole);
    while i > lo
        invariant
            lo <= i <= s.len(),
            whole == s@.subrange(lo as int, s.len() as int),
            last_index_of(whole, c) == last_index_of(whole.subrange(0, i - lo), c),
        decreases i,
    {
        let ghost t = whole.subrange(0, i - lo);
        if s[i - 1] == c {
            return Some(i - 1);
        }
        assert(t.drop_last() =~= whole.subrange(0, i - 1 - lo));
        i = i - 1;
    }
    None
}

/// `c` does not occur in `s`.
pub open spec fn lacks(s: Seq<u8>, c: u8) -> bool {
    forall|k: int| 0 <= k < s.len() ==> s[k] != c
}

pub proof fn lemma_last_index_lacks(s: Seq<u8>, c: u8)
    ensures
        last_index_of(s, c) >= -1,
        lacks(s, c) <==> last_index_of(s, c) == -1,
        last_index_of(s, c) >= 0 ==> 0 <= last_index_of(s, c) < s.len() && s[last_index_of(s, c)]
            == c && lacks(s.subrange(last_index_of(s, c) + 1, s.len() as int), c),
    decreases s.len(),
{
    if s.len() > 0 {
        lemma_last_index_lacks(s.drop_last(), c);
        if s.last() != c {
            if lacks(s.drop_last(), c) {
                assert forall|k: int| 0 <= k < s.len() implies s[k] != c by {
                    if k < s.len() - 1 {
                        assert(s.drop_last()[k] == s[k]);
                    }
                }
            } else {
                let k = choose|k: int| 0 <= k < s.drop_last().len() && s.drop_last()[k] == c;
                assert(s[k] == c);
            }
            let l = last_index_of(s, c);
            if l >= 0 {
                assert forall|k: int| 0 <= k < s.len() - l - 1 implies #[trigger] s.subrange(
                    l + 1,
                    s.len() as int,
                )[k] != c by {
                    if l + 1 + k < s.len() - 1 {
                        assert(s.drop_last().subrange(l + 1, s.len() - 1)[k] == s[l + 1 + k]);
                    }
                }
            }
        } else {
            assert(!lacks(s, c));
        }
    }
}

/// Appends `src[from..to]` to `out`, each byte through `lower` when asked.
fn append_range(out: &mut Vec<u8>, src: &Vec<u8>, from: usize, to: usize, lower: bool)
    requires
        from <= to <= src.len(),
    ensures
        final(out)@ == old(out)@ + (if lower {
            lower_bytes(src@.subrange(from as int, to as int))
        } else {
            src@.subrange(from as int, to as int)
        }),
{
    let ghost start = out@;
    let mut i: usize = from;
    while i < to
        invariant
            from <= i <= to,
            to <= src.len(),
            out@ == start + (if lower {
                lower_bytes(src@.subrange(from as int, i as int))
            } else {
                src@.subrange(from as int, i as int)
            }),
        decreases to - i,
    {
        let b = if lower {
            lower_byte_exec(src[i])
        } else {
            src[i]
        };
        out.push(b);
        proof {
            assert(src@.subrange(from as int, i + 1) =~= src@.subrange(from as int, i as int).push(
                src@[i as int],
            ));
            assert(lower_bytes(src@.subrange(from as int, i + 1)) =~= lower_bytes(
                src@.subrange(from as int, i as int),
            ).push(lower_byte(src@[i as int])));
        }
        i = i + 1;
    }
}

/// `path` without `prefix` where it starts with it, else `path` itself: how
/// paths under the working directory are shown.
pub fn format_path_buf_without_prefix(path: &Vec<u8>, prefix: &Vec<u8>) -> (r: Vec<u8>)
    ensures
        r@ == (if prefix@.is_prefix_of(path@) {
            path@.subrange(prefix.len() as int, path.len() as int)
        } else {
            path@
        }),
{
    let starts = prefix.len() <= path.len() && {
        let mut i: usize = 0;
        let mut same = true;
        while i < prefix.len()
            invariant
                prefix.len() <= path.len(),
                i <= prefix.len(),
                same == (forall|k: int| 0 <= k < i ==> prefix@[k] == path@[k]),
            decreases prefix.len() - i,
        {
            if prefix[i] != path[i] {
                same = false;
            }
            i = i + 1;
        }
        same
    };
    let mut out: Vec<u8> = Vec::new();
    if starts {
        append_range(&mut out, path, prefix.len(), path.len(), false);
    } else {
        append_range(&mut out, path, 0, path.len(), false);
    }
    assert(path@.subrange(0, path.len() as int) =~= path@);
    out
}

/// The path that `path` is renamed to for the new stem `stem`.
pub fn target_path(path: &Vec<u8>, stem: &Vec<u8>) -> (r: Vec<u8>)
    ensures
        r@ == target_of(path@, stem@),
{
    let mut out: Vec<u8> = Vec::new();
    proof {
        assert(path@.subrange(0, path.len() as int) =~= path@);
        lemma_last_index_lacks(path@, SEPARATOR);
    }
    let name_start: usize = match find_last_from(path, 0, SEPARATOR) {
        Some(i) => i + 1,
        None => 0,
    };
    append_range(&mut out, path, 0, name_start, false);
    append_range(&mut out, stem, 0, stem.len(), false);
    let ghost name = name_part(path@);
    assert(name == path@.subrange(name_start as int, path.len() as int));
    proof {
        lemma_last_index_lacks(name, DOT);
    }
    match find_last_from(path, name_start, DOT) {
        Some(d) => {
            if d > name_start && d + 1 < path.len() {
                out.push(DOT);
                append_range(&mut out, path, d + 1, path.len(), true);
                proof {
                    assert(name.subrange(d - name_start + 1, name.len() as int) =~= path@.subrange(
                        d + 1,
                        path.len() as int,
                    ));
                }
            }
        },
        None => {},
    }
    assert(out@ =~= target_of(path@, stem@));
    out
}

} // verus!
