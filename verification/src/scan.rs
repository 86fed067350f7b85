//! Directory-scan logic: which filenames count as wallpapers, and how the
//! catalog is built from a directory listing.

use vstd::prelude::*;
use crate::catalog::Catalog;
use crate::text::{lower_char, lower_seq, to_lower};

verus! {

/// One directory entry as handed in by the caller: the entry's filename and
/// its full path, both already decoded as text. Entries whose names cannot be
/// decoded are skipped before this point and never reach the catalog.
pub struct FileEntry {
    pub name: String,
    pub path: String,
}

/// Index of the last '.' in the sequence, or -1 when there is none.
pub open spec fn last_dot_at(s: Seq<char>) -> int
    decreases s.len(),
{
    if s.len() == 0 {
        -1
    } else if s.last() == '.' {
        s.len() - 1
    } else {
        last_dot_at(s.drop_last())
    }
}

/// The filename's extension: the text after the last dot. Absent when the
/// name has no dot, or its only dot leads the name (a hidden file).
pub open spec fn extension_of(name: Seq<char>) -> Option<Seq<char>> {
    let d = last_dot_at(name);
    if d <= 0 {
        Option::None
    } else {
        Option::Some(name.subrange(d + 1, name.len() as int))
    }
}

/// The recognized image extensions, compared after ASCII lower-casing.
pub open spec fn is_supported_ext(ext: Seq<char>) -> bool {
    ||| lower_seq(ext) == "jpg"@
    ||| lower_seq(ext) == "jpeg"@
    ||| lower_seq(ext) == "png"@
    ||| lower_seq(ext) == "bmp"@
    ||| lower_seq(ext) == "gif"@
}

/// A filename names a wallpaper when it has an extension and that extension
/// is a supported image extension (case-insensitively).
pub open spec fn is_wallpaper_name(name: Seq<char>) -> bool {
    match extension_of(name) {
        Option::Some(e) => is_supported_ext(e),
        Option::None => false,
    }
}

/// Whether the tail of `name` starting at `from`, lower-cased, reads as `lit`.
fn tail_matches_lower(name: &str, from: usize, lit: &str) -> (r: bool)
    requires
        from <= name@.len(),
    ensures
        r == (lower_seq(name@.subrange(from as int, name@.len() as int)) == lit@),
{
    let len = name.unicode_len();
    let m = lit.unicode_len();
    if len - from != m {
        proof {
            let sub = name@.subrange(from as int, len as int);
            assert(lower_seq(sub).len() == sub.len());
        }
        return false;
    }
    let mut i: usize = 0;
    while i < m
        invariant
            0 <= i <= m,
            from + m == len,
            len == name@.len(),
            m == lit@.len(),
            forall|j: int| 0 <= j < i ==> lower_char(name@[from + j]) == lit@[j],
        decreases m - i,
    {
        if to_lower(name.get_char(from + i)) != lit.get_char(i) {
            proof {
                let sub = name@.subrange(from as int, len as int);
                assert(lower_seq(sub)[i as int] == lower_char(name@[from + i]));
            }
            return false;
        }
        i = i + 1;
    }
    proof {
        let sub = name@.subrange(from as int, len as int);
        assert forall|j: int| 0 <= j < m implies lower_seq(sub)[j] == lit@[j] by {
            assert(lower_char(name@[from + j]) == lit@[j]);
        }
        assert(lower_seq(sub) =~= lit@);
    }
    true
}

/// Whether the tail of `name` starting at `from` is a supported extension.
fn supported_extension_at(name: &str, from: usize) -> (r: bool)
    requires
        from <= name@.len(),
    ensures
        r == is_supported_ext(name@.subrange(from as int, name@.len() as int)),
{
    tail_matches_lower(name, from, "jpg") || tail_matches_lower(name, from, "jpeg")
        || tail_matches_lower(name, from, "png") || tail_matches_lower(name, from, "bmp")
        || tail_matches_lower(name, from, "gif")
}

/// Whether a directory entry's filename counts as a wallpaper.
pub fn is_wallpaper(name: &str) -> (r: bool)
    ensures
        r == is_wallpaper_name(name@),
{
    let len = name.unicode_len();
    proof {
        assert(name@.subrange(0, len as int) =~= name@);
    }
    let mut i: usize = len;
    while i > 0 && name.get_char(i - 1) != '.'
        invariant
            0 <= i <= len,
            len == name@.len(),
            last_dot_at(name@) == last_dot_at(name@.subrange(0, i as int)),
        decreases i,
    {
        proof {
            let t = name@.subrange(0, i as int);
            assert(t.drop_last() =~= name@.subrange(0, i as int - 1));
        }
        i = i - 1;
    }
    if i <= 1 {
        proof {
            if i == 0 {
                assert(last_dot_at(name@) == -1);
            } else {
                let t = name@.subrange(0, 1);
                assert(t.last() == name@[0]);
                assert(last_dot_at(name@) == 0);
            }
        }
        false
    } else {
        proof {
            let t = name@.subrange(0, i as int);
            assert(t.last() == name@[i as int - 1]);
            assert(last_dot_at(name@) == i - 1);
            assert(extension_of(name@) == Option::Some(
                name@.subrange(i as int, name@.len() as int),
            ));
        }
        supported_extension_at(name, i)
    }
}

/// The catalog that a directory listing yields: each entry whose filename is
/// a wallpaper name is bound to its path, later entries overwriting earlier
/// ones with the same filename.
pub open spec fn catalog_of(entries: Seq<FileEntry>) -> Map<Seq<char>, Seq<char>>
    decreases entries.len(),
{
    if entries.len() == 0 {
        Map::empty()
    } else {
        let prev = catalog_of(entries.drop_last());
        let e = entries.last();
        if is_wallpaper_name(e.name@) {
            prev.insert(e.name@, e.path@)
        } else {
            prev
        }
    }
}

/// Builds the catalog from a directory listing.
pub fn find_wallpapers(entries: &Vec<FileEntry>) -> (c: Catalog)
    ensures
        c.wf(),
        c.as_map() == catalog_of(entries@),
{
    let mut c = Catalog::new();
    let n = entries.len();
    proof {
        assert(entries@.subrange(0, 0).len() == 0);
    }
    let mut i: usize = 0;
    while i < n
        invariant
            0 <= i <= n,
            n == entries@.len(),
            c.wf(),
            c.as_map() == catalog_of(entries@.subrange(0, i as int)),
        decreases n - i,
    {
        let e = &entries[i];
        if is_wallpaper(e.name.as_str()) {
            c.insert(e.name.clone(), e.path.clone());
        }
        proof {
            let t = entries@.subrange(0, i as int + 1);
            assert(t.drop_last() =~= entries@.subrange(0, i as int));
            assert(t.last() == entries@[i as int]);
        }
        i = i + 1;
    }
    proof {
        assert(entries@.subrange(0, n as int) =~= entries@);
    }
    c
}

/// The catalog holds exactly the wallpaper-named entries of the listing,
/// keyed by their exact filenames: a filename is in the catalog's domain if
/// and only if it names a wallpaper and occurs in the listing.
pub proof fn lemma_catalog_domain(entries: Seq<FileEntry>, k: Seq<char>)
    ensures
        catalog_of(entries).dom().contains(k) <==> (is_wallpaper_name(k) && exists|i: int|
            0 <= i < entries.len() && entries[i].name@ == k),
    decreases entries.len(),
{
    if entries.len() > 0 {
        lemma_catalog_domain(entries.drop_last(), k);
        let e = entries.last();
        let prev = catalog_of(entries.drop_last());
        if catalog_of(entries).dom().contains(k) {
            if is_wallpaper_name(e.name@) && e.name@ == k {
                assert(entries[entries.len() - 1].name@ == k);
            } else {
                assert(prev.dom().contains(k));
                let w = choose|i: int|
                    0 <= i < entries.drop_last().len() && entries.drop_last()[i].name@ == k;
                assert(entries[w].name@ == k);
            }
        }
        if is_wallpaper_name(k) && exists|i: int| 0 <= i < entries.len() && entries[i].name@
            == k {
            let w = choose|i: int| 0 <= i < entries.len() && entries[i].name@ == k;
            if w == entries.len() - 1 {
                assert(catalog_of(entries).dom().contains(k));
            } else {
                assert(entries.drop_last()[w].name@ == k);
                assert(prev.dom().contains(k));
            }
        }
    }
}

/// Last entry wins: the path bound to a filename is the path of the last
/// listing entry carrying that filename.
pub proof fn lemma_catalog_last_wins(entries: Seq<FileEntry>, i: int)
    requires
        0 <= i < entries.len(),
        is_wallpaper_name(entries[i].name@),
        forall|j: int| i < j < entries.len() ==> entries[j].name@ != entries[i].name@,
    ensures
        catalog_of(entries).dom().contains(entries[i].name@),
        catalog_of(entries)[entries[i].name@] == entries[i].path@,
    decreases entries.len(),
{
    let k = entries[i].name@;
    let e = entries.last();
    if i == entries.len() - 1 {
        assert(catalog_of(entries) == catalog_of(entries.drop_last()).insert(k, e.path@));
    } else {
        assert(entries.drop_last()[i] == entries[i]);
        assert forall|j: int| i < j < entries.drop_last().len() implies entries.drop_last()[j].name@
            != k by {
            assert(entries.drop_last()[j] == entries[j]);
        }
        lemma_catalog_last_wins(entries.drop_last(), i);
        assert(e.name@ != k);
    }
}

} // verus!
