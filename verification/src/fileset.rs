use vstd::prelude::*;
use vstd::multiset::Multiset;
use crate::errors::ViewerError;

verus! {

/// One directory entry as the host hands it over: the file path as raw
/// bytes and its modification time in seconds. The listing order of the
/// directory is the order of the `Vec` the host builds.
pub struct ImageEntry {
    pub path: Vec<u8>,
    pub mtime: u64,
}

/// The mathematical shadow of an [`ImageEntry`].
pub struct EntryModel {
    pub path: Seq<u8>,
    pub mtime: u64,
}

impl View for ImageEntry {
    type V = EntryModel;

    open spec fn view(&self) -> EntryModel {
        EntryModel { path: self.path@, mtime: self.mtime }
    }
}

/// The models of a whole listing, in listing order.
pub open spec fn views_of(s: Seq<ImageEntry>) -> Seq<EntryModel> {
    s.map_values(|e: ImageEntry| e@)
}

/// The part of a path after its last `/`; the whole path when it has no
/// separator.
pub open spec fn file_name_of(path: Seq<u8>) -> Seq<u8>
    decreases path.len(),
{
    if path.len() == 0 {
        path
    } else if path.last() == 47u8 {
        Seq::empty()
    } else {
        file_name_of(path.drop_last()).push(path.last())
    }
}

/// The index of the last `.` in a file name, or -1 when it has none.
pub open spec fn last_dot_of(name: Seq<u8>) -> int
    decreases name.len(),
{
    if name.len() == 0 {
        -1
    } else if name.last() == 46u8 {
        name.len() - 1
    } else {
        last_dot_of(name.drop_last())
    }
}

/// The extension of a path: what follows the last `.` of its file name.
/// A name without a dot, or whose only dot leads it (a hidden file),
/// has no extension.
pub open spec fn extension_of(path: Seq<u8>) -> Option<Seq<u8>> {
    let name = file_name_of(path);
    let d = last_dot_of(name);
    if d <= 0 {
        None
    } else {
        Some(name.skip(d + 1))
    }
}

/// ASCII lower-casing of one byte.
pub open spec fn lower(b: u8) -> u8 {
    if 65 <= b <= 90 {
        (b + 32) as u8
    } else {
        b
    }
}

/// ASCII lower-casing of a byte string.
pub open spec fn lower_seq(s: Seq<u8>) -> Seq<u8> {
    s.map_values(|b: u8| lower(b))
}

/// The supported image extensions, compared lower-cased: jpg, jpeg,
/// png, bmp, tif.
pub open spec fn supported_lower(e: Seq<u8>) -> bool {
    ||| (e.len() == 3 && e[0] == 106 && e[1] == 112 && e[2] == 103)  // jpg
    ||| (e.len() == 4 && e[0] == 106 && e[1] == 112 && e[2] == 101 && e[3] == 103)  // jpeg
    ||| (e.len() == 3 && e[0] == 112 && e[1] == 110 && e[2] == 103)  // png
    ||| (e.len() == 3 && e[0] == 98 && e[1] == 109 && e[2] == 112)  // bmp
    ||| (e.len() == 3 && e[0] == 116 && e[1] == 105 && e[2] == 102)  // tif
}

/// Whether a path names an image the viewer can browse: it has an
/// extension and, case-insensitively, that extension is supported.
pub open spec fn is_supported(path: Seq<u8>) -> bool {
    match extension_of(path) {
        Some(e) => supported_lower(lower_seq(e)),
        None => false,
    }
}

proof fn lemma_file_name_at(s: Seq<u8>, m: int)
    requires
        0 <= m <= s.len(),
        m > 0 ==> s[m - 1] == 47u8,
        forall|k: int| m <= k < s.len() ==> s[k] != 47u8,
    ensures
        file_name_of(s) == s.skip(m),
    decreases s.len(),
{
    if s.len() == 0 {
        assert(s.skip(0) =~= s);
    } else if s.last() == 47u8 {
        assert(m == s.len());
        assert(s.skip(m) =~= Seq::<u8>::empty());
    } else {
        assert(m < s.len());
        lemma_file_name_at(s.drop_last(), m);
        assert(s.drop_last().skip(m).push(s.last()) =~= s.skip(m));
    }
}

proof fn lemma_last_dot_at(s: Seq<u8>, d: int)
    requires
        -1 <= d < s.len(),
        d >= 0 ==> s[d] == 46u8,
        forall|k: int| d < k < s.len() ==> s[k] != 46u8,
    ensures
        last_dot_of(s) == d,
    decreases s.len(),
{
    if s.len() == 0 {
    } else if s.last() == 46u8 {
        assert(d == s.len() - 1);
    } else {
        assert(d < s.len() - 1);
        lemma_last_dot_at(s.drop_last(), d);
    }
}

/// The extension of `path`, as [`extension_of`] defines it.
pub fn path_extension(path: &Vec<u8>) -> (r: Option<Vec<u8>>)
    ensures
        match r {
            Some(e) => extension_of(path@) == Some(e@),
            None => extension_of(path@) is None,
        },
{
    let n = path.len();
    let mut m: usize = n;
    while m > 0 && path[m - 1] != 47u8
        invariant
            m <= n,
            n == path.len(),
            forall|k: int| m <= k < n ==> path@[k] != 47u8,
        decreases m,
    {
        m = m - 1;
    }
    let mut j: usize = n;
    while j > m && path[j - 1] != 46u8
        invariant
            m <= j <= n,
            n == path.len(),
            forall|k: int| j <= k < n ==> path@[k] != 46u8,
        decreases j,
    {
        j = j - 1;
    }
    proof {
        lemma_file_name_at(path@, m as int);
    }
    if j - m > 1 {
        proof {
            lemma_last_dot_at(path@.skip(m as int), j - 1 - m);
            assert(path@.skip(m as int).skip(j - m) =~= path@.skip(j as int));
        }
        let mut ext: Vec<u8> = Vec::new();
        let mut k: usize = j;
        while k < n
            invariant
                j <= k <= n,
                n == path.len(),
                ext@ == path@.subrange(j as int, k as int),
            decreases n - k,
        {
            ext.push(path[k]);
            proof {
                assert(path@.subrange(j as int, k as int).push(path@[k as int]) =~= path@.subrange(
                    j as int,
                    k + 1,
                ));
            }
            k = k + 1;
        }
        Some(ext)
    } else {
        proof {
            if j == m {
                lemma_last_dot_at(path@.skip(m as int), -1);
            } else {
                lemma_last_dot_at(path@.skip(m as int), 0);
            }
        }
        None
    }
}

/// `e`, ASCII lower-cased.
pub fn ascii_to_lower(e: &Vec<u8>) -> (r: Vec<u8>)
    ensures
        r@ == lower_seq(e@),
{
    let mut out: Vec<u8> = Vec::new();
    let mut i: usize = 0;
    while i < e.len()
        invariant
            i <= e.len(),
            out@.len() == i,
            forall|k: int| 0 <= k < i ==> out@[k] == lower(e@[k]),
        decreases e.len() - i,
    {
        let b = e[i];
        if 65 <= b && b <= 90 {
            out.push(b + 32);
        } else {
            out.push(b);
        }
        i = i + 1;
    }
    proof {
        assert(out@ =~= lower_seq(e@));
    }
    out
}

fn supported_lower_bytes(e: &Vec<u8>) -> (r: bool)
    ensures
        r == supported_lower(e@),
{
    if e.len() == 3 {
        (e[0] == 106 && e[1] == 112 && e[2] == 103) || (e[0] == 112 && e[1] == 110 && e[2] == 103)
            || (e[0] == 98 && e[1] == 109 && e[2] == 112) || (e[0] == 116 && e[1] == 105 && e[2]
            == 102)
    } else if e.len() == 4 {
        e[0] == 106 && e[1] == 112 && e[2] == 101 && e[3] == 103
    } else {
        false
    }
}

/// Whether this path's extension, lower-cased, is one of the supported
/// image types.
pub fn has_supported_extension(path: &Vec<u8>) -> (r: bool)
    ensures
        r == is_supported(path@),
{
    match path_extension(path) {
        Some(e) => {
            let low = ascii_to_lower(&e);
            supported_lower_bytes(&low)
        },
        None => false,
    }
}

/// The parent directory of a path, under this library's path model:
/// everything before the last `/`. A path without a separator lives in
/// the empty (current) directory; the root and the empty path have no
/// parent.
pub open spec fn parent_of(p: Seq<u8>) -> Option<Seq<u8>> {
    let name = file_name_of(p);
    if p.len() == 0 {
        None
    } else if name.len() == p.len() {
        Some(Seq::empty())
    } else if p.len() == name.len() + 1 {
        if p.len() == 1 {
            None
        } else {
            Some(seq![47u8])
        }
    } else {
        Some(p.take(p.len() - name.len() - 1))
    }
}

/// The directory whose listing the builder browses: the starting
/// path's parent. A path with no parent — the root, or an empty
/// argument — cannot start a session.
pub fn parent_directory(path: &Vec<u8>) -> (r: Result<Vec<u8>, ViewerError>)
    ensures
        match r {
            Ok(d) => parent_of(path@) == Some(d@),
            Err(e) => parent_of(path@) is None && e == ViewerError::InvalidInput,
        },
{
    let n = path.len();
    let mut m: usize = n;
    while m > 0 && path[m - 1] != 47u8
        invariant
            m <= n,
            n == path.len(),
            forall|k: int| m <= k < n ==> path@[k] != 47u8,
        decreases m,
    {
        m = m - 1;
    }
    proof {
        lemma_file_name_at(path@, m as int);
        assert(file_name_of(path@).len() == n - m);
    }
    if n == 0 {
        Err(ViewerError::InvalidInput)
    } else if m == 0 {
        let empty: Vec<u8> = Vec::new();
        proof {
            assert(empty@ =~= Seq::<u8>::empty());
        }
        Ok(empty)
    } else if m == 1 {
        if n == 1 {
            Err(ViewerError::InvalidInput)
        } else {
            let mut root: Vec<u8> = Vec::new();
            root.push(47u8);
            proof {
                assert(root@ =~= seq![47u8]);
            }
            Ok(root)
        }
    } else {
        let mut out: Vec<u8> = Vec::new();
        let mut k: usize = 0;
        while k < m - 1
            invariant
                k <= m - 1,
                1 <= m <= n,
                n == path.len(),
                out@ == path@.subrange(0, k as int),
            decreases m - k,
        {
            out.push(path[k]);
            proof {
                assert(path@.subrange(0, k as int).push(path@[k as int]) =~= path@.subrange(
                    0,
                    k + 1,
                ));
            }
            k = k + 1;
        }
        proof {
            assert(path@.subrange(0, m - 1) =~= path@.take(m - 1));
        }
        Ok(out)
    }
}

/// The entries whose paths the viewer supports, in listing order.
pub open spec fn keep_supported(s: Seq<EntryModel>) -> Seq<EntryModel>
    decreases s.len(),
{
    if s.len() == 0 {
        Seq::empty()
    } else if is_supported(s.last().path) {
        keep_supported(s.drop_last()).push(s.last())
    } else {
        keep_supported(s.drop_last())
    }
}

/// Insert `x` into a list ordered by modification time descending,
/// after every entry at least as recent: ties keep the older listing
/// position first, which makes the sort stable.
pub open spec fn insert_desc(s: Seq<EntryModel>, x: EntryModel) -> Seq<EntryModel>
    decreases s.len(),
{
    if s.len() == 0 {
        seq![x]
    } else if s.first().mtime >= x.mtime {
        seq![s.first()] + insert_desc(s.drop_first(), x)
    } else {
        seq![x] + s
    }
}

/// Stable insertion sort by modification time, most recent first.
pub open spec fn sort_desc(s: Seq<EntryModel>) -> Seq<EntryModel>
    decreases s.len(),
{
    if s.len() == 0 {
        Seq::empty()
    } else {
        insert_desc(sort_desc(s.drop_last()), s.last())
    }
}

/// Ordered by modification time, most recent first.
pub open spec fn sorted_desc(s: Seq<EntryModel>) -> bool {
    forall|i: int, j: int| 0 <= i < j < s.len() ==> s[i].mtime >= s[j].mtime
}

proof fn lemma_insert_desc_at(s: Seq<EntryModel>, x: EntryModel, pos: int)
    requires
        0 <= pos <= s.len(),
        forall|k: int| 0 <= k < pos ==> s[k].mtime >= x.mtime,
        pos < s.len() ==> s[pos].mtime < x.mtime,
    ensures
        insert_desc(s, x) == s.insert(pos, x),
    decreases s.len(),
{
    if s.len() == 0 {
        assert(insert_desc(s, x) =~= s.insert(0, x));
    } else if pos == 0 {
        assert(insert_desc(s, x) =~= s.insert(0, x));
    } else {
        assert(s[0].mtime >= x.mtime);
        lemma_insert_desc_at(s.drop_first(), x, pos - 1);
        assert(seq![s.first()] + s.drop_first().insert(pos - 1, x) =~= s.insert(pos, x));
    }
}

/// Keep only the entries the viewer can browse, in listing order.
pub fn filter_supported(entries: Vec<ImageEntry>) -> (r: Vec<ImageEntry>)
    ensures
        views_of(r@) == keep_supported(views_of(entries@)),
{
    let ghost orig = entries@;
    let mut rest = entries;
    let mut out: Vec<ImageEntry> = Vec::new();
    let ghost mut i: int = 0;
    proof {
        assert(rest@ =~= orig.skip(0));
        assert(views_of(orig.take(0)) =~= Seq::<EntryModel>::empty());
        assert(views_of(out@) =~= Seq::<EntryModel>::empty());
    }
    while rest.len() > 0
        invariant
            0 <= i <= orig.len(),
            rest@ == orig.skip(i),
            views_of(out@) == keep_supported(views_of(orig.take(i))),
        decreases rest@.len(),
    {
        let x = rest.remove(0);
        let ghost before = views_of(out@);
        let keep = has_supported_extension(&x.path);
        if keep {
            out.push(x);
        }
        proof {
            assert(x == orig[i]);
            assert(rest@ =~= orig.skip(i + 1));
            let v1 = views_of(orig.take(i + 1));
            assert(v1.drop_last() =~= views_of(orig.take(i)));
            assert(v1.last() == orig[i]@);
            if keep {
                assert(views_of(out@) =~= before.push(orig[i]@));
            }
            i = i + 1;
        }
    }
    proof {
        assert(i == orig.len());
        assert(orig.take(i) =~= orig);
    }
    out
}

/// The image list ordered by modification time, most recent first;
/// entries of equal time keep their listing order.
pub fn sort_by_mtime_desc(entries: Vec<ImageEntry>) -> (r: Vec<ImageEntry>)
    ensures
        views_of(r@) == sort_desc(views_of(entries@)),
{
    let ghost orig = entries@;
    let mut rest = entries;
    let mut out: Vec<ImageEntry> = Vec::new();
    let ghost mut i: int = 0;
    proof {
        assert(rest@ =~= orig.skip(0));
        assert(views_of(orig.take(0)) =~= Seq::<EntryModel>::empty());
        assert(views_of(out@) =~= Seq::<EntryModel>::empty());
    }
    while rest.len() > 0
        invariant
            0 <= i <= orig.len(),
            rest@ == orig.skip(i),
            views_of(out@) == sort_desc(views_of(orig.take(i))),
        decreases rest@.len(),
    {
        let x = rest.remove(0);
        let ghost before = views_of(out@);
        let mut pos: usize = 0;
        while pos < out.len() && out[pos].mtime >= x.mtime
            invariant
                pos <= out.len(),
                forall|k: int| 0 <= k < pos ==> out@[k].mtime >= x.mtime,
            decreases out.len() - pos,
        {
            pos = pos + 1;
        }
        out.insert(pos, x);
        proof {
            assert(x == orig[i]);
            assert(rest@ =~= orig.skip(i + 1));
            assert(forall|k: int| 0 <= k < pos ==> before[k].mtime >= x@.mtime);
            assert(pos < before.len() ==> before[pos as int].mtime < x@.mtime);
            lemma_insert_desc_at(before, x@, pos as int);
            assert(views_of(out@) =~= before.insert(pos as int, x@));
            let v1 = views_of(orig.take(i + 1));
            assert(v1.drop_last() =~= views_of(orig.take(i)));
            assert(v1.last() == orig[i]@);
            i = i + 1;
        }
    }
    proof {
        assert(i == orig.len());
        assert(orig.take(i) =~= orig);
    }
    out
}

/// Whether two byte strings hold the same bytes.
pub fn bytes_eq(a: &Vec<u8>, b: &Vec<u8>) -> (r: bool)
    ensures
        r == (a@ == b@),
{
    if a.len() != b.len() {
        return false;
    }
    let mut i: usize = 0;
    while i < a.len()
        invariant
            i <= a.len(),
            a.len() == b.len(),
            forall|k: int| 0 <= k < i ==> a@[k] == b@[k],
        decreases a.len() - i,
    {
        if a[i] != b[i] {
            return false;
        }
        i = i + 1;
    }
    proof {
        assert(a@ =~= b@);
    }
    true
}

/// The position of the first entry whose path equals `start`, if any.
pub fn find_start_index(entries: &Vec<ImageEntry>, start: &Vec<u8>) -> (r: Option<usize>)
    ensures
        match r {
            Some(i) => i < entries@.len() && entries@[i as int]@.path == start@ && forall|j: int|
                0 <= j < i ==> entries@[j]@.path != start@,
            None => forall|j: int| 0 <= j < entries@.len() ==> entries@[j]@.path != start@,
        },
{
    let mut i: usize = 0;
    while i < entries.len()
        invariant
            i <= entries.len(),
            forall|j: int| 0 <= j < i ==> entries@[j]@.path != start@,
        decreases entries.len() - i,
    {
        if bytes_eq(&entries[i].path, start) {
            return Some(i);
        }
        i = i + 1;
    }
    None
}

/// Where [`insert_desc`] places `x`: after the leading run of entries
/// at least as recent as it.
pub open spec fn insert_pos(s: Seq<EntryModel>, x: EntryModel) -> int
    decreases s.len(),
{
    if s.len() == 0 {
        0
    } else if s.first().mtime >= x.mtime {
        1 + insert_pos(s.drop_first(), x)
    } else {
        0
    }
}

proof fn lemma_insert_pos_props(s: Seq<EntryModel>, x: EntryModel)
    ensures
        0 <= insert_pos(s, x) <= s.len(),
        forall|k: int| 0 <= k < insert_pos(s, x) ==> s[k].mtime >= x.mtime,
        insert_pos(s, x) < s.len() ==> s[insert_pos(s, x)].mtime < x.mtime,
    decreases s.len(),
{
    if s.len() == 0 {
    } else if s.first().mtime >= x.mtime {
        lemma_insert_pos_props(s.drop_first(), x);
        let p = insert_pos(s, x);
        assert forall|k: int| 0 <= k < p implies s[k].mtime >= x.mtime by {
            if k > 0 {
                assert(s.drop_first()[k - 1] == s[k]);
                assert(s.drop_first()[k - 1].mtime >= x.mtime);
            }
        }
        if p < s.len() {
            assert(s.drop_first()[p - 1] == s[p]);
        }
    }
}

proof fn lemma_insert_desc_ensures(s: Seq<EntryModel>, x: EntryModel)
    requires
        sorted_desc(s),
    ensures
        sorted_desc(insert_desc(s, x)),
        insert_desc(s, x).to_multiset() == s.to_multiset().insert(x),
        insert_desc(s, x).len() == s.len() + 1,
{
    lemma_insert_pos_props(s, x);
    let p = insert_pos(s, x);
    lemma_insert_desc_at(s, x, p);
    s.insert_ensures(p, x);
    vstd::seq_lib::to_multiset_insert(s, p, x);
    let t = s.insert(p, x);
    assert forall|a: int, b: int| 0 <= a < b < t.len() implies t[a].mtime >= t[b].mtime by {
        if a < p {
            assert(t[a] == s[a]);
        }
        if b < p {
            assert(t[b] == s[b]);
        }
        if a > p {
            assert(t[a] == s[a - 1]);
        }
        if b > p {
            assert(t[b] == s[b - 1]);
        }
        if a == p {
            assert(t[a] == x);
        }
        if b == p {
            assert(t[b] == x);
        }
        if a > p || (a == p && b > p) {
            assert(p < s.len() ==> s[p].mtime < x.mtime);
        }
    }
}

proof fn lemma_sort_desc_ensures(s: Seq<EntryModel>)
    ensures
        sorted_desc(sort_desc(s)),
        sort_desc(s).to_multiset() == s.to_multiset(),
        sort_desc(s).len() == s.len(),
    decreases s.len(),
{
    broadcast use vstd::seq_lib::group_to_multiset_ensures;
    broadcast use vstd::multiset::group_multiset_axioms;

    if s.len() == 0 {
        assert(sort_desc(s).to_multiset() =~= s.to_multiset());
    } else {
        lemma_sort_desc_ensures(s.drop_last());
        lemma_insert_desc_ensures(sort_desc(s.drop_last()), s.last());
        assert(s =~= s.drop_last().push(s.last()));
        assert(s.drop_last().push(s.last()).to_multiset() == s.drop_last().to_multiset().insert(
            s.last(),
        ));
    }
}

proof fn lemma_keep_supported_counts(s: Seq<EntryModel>)
    ensures
        forall|e: EntryModel| #[trigger] keep_supported(s).to_multiset().count(e) == (
        if is_supported(e.path) {
            s.to_multiset().count(e)
        } else {
            0
        }),
    decreases s.len(),
{
    broadcast use vstd::seq_lib::group_to_multiset_ensures;
    broadcast use vstd::multiset::group_multiset_axioms;

    broadcast use vstd::multiset::group_multiset_properties;

    if s.len() == 0 {
        assert(s.to_multiset() =~= Multiset::<EntryModel>::empty());
        assert(keep_supported(s).to_multiset() =~= Multiset::<EntryModel>::empty());
    } else {
        lemma_keep_supported_counts(s.drop_last());
        let t = s.drop_last();
        let y = s.last();
        assert(s =~= t.push(y));
        assert(s.to_multiset() == t.to_multiset().insert(y));
        if is_supported(y.path) {
            assert(keep_supported(s).to_multiset() == keep_supported(t).to_multiset().insert(y));
        }
        assert forall|e: EntryModel| #[trigger] keep_supported(s).to_multiset().count(e) == (
        if is_supported(e.path) {
            s.to_multiset().count(e)
        } else {
            0
        }) by {
            assert(keep_supported(t).to_multiset().count(e) == (if is_supported(e.path) {
                t.to_multiset().count(e)
            } else {
                0
            }));
        }
    }
}

/// The built image set holds exactly the supported-extension entries of
/// the listing — each as often as the listing holds it, every other
/// entry not at all — ordered by modification time, most recent first.
pub proof fn lemma_image_set_exact(s: Seq<EntryModel>)
    ensures
        sorted_desc(sort_desc(keep_supported(s))),
        forall|e: EntryModel| #[trigger] sort_desc(keep_supported(s)).to_multiset().count(e) == (
        if is_supported(e.path) {
            s.to_multiset().count(e)
        } else {
            0
        }),
{
    lemma_keep_supported_counts(s);
    lemma_sort_desc_ensures(keep_supported(s));
}

/// Build the browsable image set from a directory listing: keep exactly
/// the entries with a supported extension, order them by modification
/// time descending — stably, so entries of equal time keep their
/// listing order — and locate the starting file in the result. Absent
/// starting files yield `None`; the caller starts at the first image.
pub fn build_image_set(entries: Vec<ImageEntry>, start: &Vec<u8>) -> (r: (
    Vec<ImageEntry>,
    Option<usize>,
))
    ensures
        views_of(r.0@) == sort_desc(keep_supported(views_of(entries@))),
        match r.1 {
            Some(i) => i < r.0@.len() && r.0@[i as int]@.path == start@ && forall|j: int|
                0 <= j < i ==> r.0@[j]@.path != start@,
            None => forall|j: int| 0 <= j < r.0@.len() ==> r.0@[j]@.path != start@,
        },
{
    let kept = filter_supported(entries);
    let sorted = sort_by_mtime_desc(kept);
    let idx = find_start_index(&sorted, start);
    (sorted, idx)
}

} // verus!
