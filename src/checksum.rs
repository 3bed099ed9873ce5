use vstd::prelude::*;
use sha2::Digest;
use crate::error::ReleaseError;
use crate::layout::concat;
use crate::order::{lemma_lt_asymmetric, lemma_lt_irreflexive, lemma_lt_total, lemma_lt_transitive, seq_lt, str_lt};
use crate::text::str_equal;

verus! {

/// The SHA-256 digest of a byte string.
pub uninterp spec fn sha256_of(data: Seq<u8>) -> Seq<u8>;

/// Relies on `sha2::Sha256::digest`: the SHA-256 digest of the bytes, whose
/// output size is 32 bytes.
#[verifier::external_body]
fn sha256(data: &[u8]) -> (r: Vec<u8>)
    ensures
        r@ == sha256_of(data@),
        r@.len() == 32,
{
    sha2::Sha256::digest(data).to_vec()
}

/// The lower-case hexadecimal digit of a value below 16.
pub open spec fn hex_char(v: u8) -> char {
    if v < 10 {
        (('0' as u8) + v) as char
    } else {
        (('a' as u8) + (v - 10)) as char
    }
}

/// Two lower-case hexadecimal digits per byte, high nibble first.
pub open spec fn hex_seq(b: Seq<u8>) -> Seq<char>
    decreases b.len(),
{
    if b.len() == 0 {
        Seq::empty()
    } else {
        hex_seq(b.drop_last()) + seq![hex_char(b.last() / 16), hex_char(b.last() % 16)]
    }
}

fn hex_digit(v: u8) -> (r: &'static str)
    requires
        v < 16,
    ensures
        r@ == seq![hex_char(v)],
{
    let r = match v {
        0 => "0",
        1 => "1",
        2 => "2",
        3 => "3",
        4 => "4",
        5 => "5",
        6 => "6",
        7 => "7",
        8 => "8",
        9 => "9",
        10 => "a",
        11 => "b",
        12 => "c",
        13 => "d",
        14 => "e",
        _ => "f",
    };
    proof {
        reveal_strlit("0");
        reveal_strlit("1");
        reveal_strlit("2");
        reveal_strlit("3");
        reveal_strlit("4");
        reveal_strlit("5");
        reveal_strlit("6");
        reveal_strlit("7");
        reveal_strlit("8");
        reveal_strlit("9");
        reveal_strlit("a");
        reveal_strlit("b");
        reveal_strlit("c");
        reveal_strlit("d");
        reveal_strlit("e");
        reveal_strlit("f");
        assert(r@ =~= seq![hex_char(v)]);
    }
    r
}

/// The bytes as lower-case hexadecimal text.
pub fn to_hex(b: &[u8]) -> (r: String)
    ensures
        r@ == hex_seq(b@),
{
    let mut r = String::new();
    let mut i: usize = 0;
    while i < b.len()
        invariant
            i <= b@.len(),
            r@ == hex_seq(b@.take(i as int)),
        decreases b@.len() - i,
    {
        let x = b[i];
        r.append(hex_digit(x / 16));
        r.append(hex_digit(x % 16));
        proof {
            let t = b@.take(i as int + 1);
            assert(t.drop_last() =~= b@.take(i as int));
            assert(t.last() == x);
        }
        i = i + 1;
    }
    assert(b@.take(i as int) =~= b@);
    r
}

/// The manifest's record separator.
pub open spec fn separator() -> Seq<char> {
    "|||"@
}

/// A path can stand in a manifest record: it holds no line break and no
/// record separator.
pub open spec fn is_entry_path(p: Seq<char>) -> bool {
    &&& forall|k: int| 0 <= k < p.len() ==> p[k] != '\n'
    &&& forall|k: int| 0 <= k < p.len() - 2 ==> !(#[trigger] p[k] == '|' && p[k + 1] == '|' && p[k + 2] == '|')
}

fn entry_path_ok(p: &str) -> (r: bool)
    ensures
        r == is_entry_path(p@),
{
    let n = p.unicode_len();
    let mut i: usize = 0;
    while i < n
        invariant
            n == p@.len(),
            i <= n,
            forall|k: int| 0 <= k < i ==> p@[k] != '\n',
            forall|k: int| 0 <= k < i && k < n - 2 ==> !(#[trigger] p@[k] == '|' && p@[k + 1] == '|'
                && p@[k + 2] == '|'),
        decreases n - i,
    {
        let c = p.get_char(i);
        if c == '\n' {
            return false;
        }
        if c == '|' && n >= 2 && i < n - 2 && p.get_char(i + 1) == '|' && p.get_char(i + 2) == '|' {
            return false;
        }
        i = i + 1;
    }
    true
}

/// A regular file of the release tree: its path relative to the tree's root,
/// with `/` between the components, and its contents.
pub struct TreeFile {
    pub path: String,
    pub data: Vec<u8>,
}

/// One manifest record: a relative path and the hex digest of the file.
pub struct ChecksumEntry {
    pub path: String,
    pub digest: String,
}

pub open spec fn tree_view(files: Seq<TreeFile>) -> Seq<(Seq<char>, Seq<u8>)> {
    files.map_values(|f: TreeFile| (f.path@, f.data@))
}

pub open spec fn entries_view(es: Seq<ChecksumEntry>) -> Seq<(Seq<char>, Seq<char>)> {
    es.map_values(|e: ChecksumEntry| (e.path@, e.digest@))
}

/// The record that a file of the listing gets: its path and the hex SHA-256
/// digest of its contents.
pub open spec fn record_of(f: (Seq<char>, Seq<u8>)) -> (Seq<char>, Seq<char>) {
    (f.0, hex_seq(sha256_of(f.1)))
}

/// Whether a record belongs to a file of the listing other than the manifest.
pub open spec fn from_listing(
    files: Seq<(Seq<char>, Seq<u8>)>,
    exclude: Seq<char>,
    e: (Seq<char>, Seq<char>),
) -> bool {
    exists|k: int| 0 <= k < files.len() && files[k].0 != exclude && e == record_of(#[trigger] files[k])
}

/// Records in strictly increasing order of path; so no path comes twice.
pub open spec fn sorted_by_path(es: Seq<(Seq<char>, Seq<char>)>) -> bool {
    forall|a: int, b: int| 0 <= a < b < es.len() ==> seq_lt(es[a].0, es[b].0)
}

/// The manifest of a listing: the records of its files other than the
/// manifest itself, each once, in order of path.
pub open spec fn is_manifest_of(
    es: Seq<(Seq<char>, Seq<char>)>,
    files: Seq<(Seq<char>, Seq<u8>)>,
    exclude: Seq<char>,
) -> bool {
    &&& sorted_by_path(es)
    &&& forall|e: (Seq<char>, Seq<char>)| #[trigger] es.contains(e) <==> from_listing(files, exclude, e)
}

/// Every path of the listing, but the manifest's own, can stand in a record,
/// and no two such files have the same path.
pub open spec fn listing_ok(files: Seq<(Seq<char>, Seq<u8>)>, exclude: Seq<char>) -> bool {
    &&& forall|k: int| 0 <= k < files.len() && (#[trigger] files[k]).0 != exclude ==> is_entry_path(files[k].0)
    &&& forall|a: int, b: int|
        0 <= a < b < files.len() && files[a].0 != exclude ==> #[trigger] files[a].0 != #[trigger] files[b].0
}

proof fn lemma_take_push<A>(s: Seq<A>, i: int)
    requires
        0 <= i < s.len(),
    ensures
        s.take(i + 1) == s.take(i).push(s[i]),
{
    assert(s.take(i + 1) =~= s.take(i).push(s[i]));
}

/// The manifest records of a listing of the release tree, sorted by path.
/// `exclude` is the manifest's own path, which gets no record. A path that
/// cannot stand in a record, or that two files share, is a checksum error.
pub fn manifest_entries(files: &Vec<TreeFile>, exclude: &str) -> (r: Result<
    Vec<ChecksumEntry>,
    ReleaseError,
>)
    ensures
        listing_ok(tree_view(files@), exclude@) ==> r is Ok && is_manifest_of(
            entries_view(r->Ok_0@),
            tree_view(files@),
            exclude@,
        ),
        !listing_ok(tree_view(files@), exclude@) ==> r == Err::<Vec<ChecksumEntry>, ReleaseError>(
            ReleaseError::Checksum,
        ),
{
    let ghost tv = tree_view(files@);
    let mut out: Vec<ChecksumEntry> = Vec::new();
    let mut i: usize = 0;
    proof {
        assert(tv.take(0) =~= Seq::<(Seq<char>, Seq<u8>)>::empty());
        assert(entries_view(out@) =~= Seq::<(Seq<char>, Seq<char>)>::empty());
    }
    while i < files.len()
        invariant
            i <= files@.len(),
            tv == tree_view(files@),
            listing_ok(tv.take(i as int), exclude@),
            is_manifest_of(entries_view(out@), tv.take(i as int), exclude@),
        decreases files@.len() - i,
    {
        let f = &files[i];
        let ghost pre = tv.take(i as int);
        let ghost post = tv.take(i as int + 1);
        let ghost ov = entries_view(out@);
        proof {
            assert(tv[i as int] == (f.path@, f.data@));
            lemma_take_push(tv, i as int);
        }
        if !str_equal(f.path.as_str(), exclude) {
            if !entry_path_ok(f.path.as_str()) {
                proof {
                    assert(tv[i as int].0 != exclude@);
                    assert(!is_entry_path(tv[i as int].0));
                }
                return Err(ReleaseError::Checksum);
            }
            let digest = to_hex(sha256(f.data.as_slice()).as_slice());
            let ghost rec = (f.path@, hex_seq(sha256_of(f.data@)));
            let mut p: usize = 0;
            while p < out.len() && str_lt(out[p].path.as_str(), f.path.as_str())
                invariant
                    p <= out@.len(),
                    ov == entries_view(out@),
                    forall|k: int| 0 <= k < p ==> seq_lt(#[trigger] ov[k].0, f.path@),
                decreases out@.len() - p,
            {
                p = p + 1;
            }
            if p < out.len() && str_equal(out[p].path.as_str(), f.path.as_str()) {
                proof {
                    assert(ov.contains(ov[p as int]));
                    let k = choose|k: int|
                        0 <= k < pre.len() && pre[k].0 != exclude@ && ov[p as int] == record_of(
                            #[trigger] pre[k],
                        );
                    assert(pre[k] == tv[k]);
                    assert(tv[k].0 == tv[i as int].0);
                }
                return Err(ReleaseError::Checksum);
            }
            out.insert(p, ChecksumEntry { path: f.path.clone(), digest });
            proof {
                let nv = entries_view(out@);
                assert(nv =~= ov.insert(p as int, rec));
                if p < ov.len() {
                    assert(!seq_lt(ov[p as int].0, f.path@));
                    lemma_lt_total(ov[p as int].0, f.path@);
                }
                assert forall|a: int, b: int| 0 <= a < b < nv.len() implies seq_lt(nv[a].0, nv[b].0) by {
                    if b < p {
                        assert(nv[a] == ov[a] && nv[b] == ov[b]);
                    } else if b == p {
                        assert(nv[a] == ov[a]);
                    } else if a == p {
                        assert(nv[b] == ov[b - 1]);
                        if b - 1 > p {
                            lemma_lt_transitive(f.path@, ov[p as int].0, ov[b - 1].0);
                        }
                    } else if a < p {
                        assert(nv[a] == ov[a] && nv[b] == ov[b - 1]);
                        lemma_lt_transitive(ov[a].0, f.path@, ov[p as int].0);
                        if b - 1 > p {
                            lemma_lt_transitive(ov[a].0, ov[p as int].0, ov[b - 1].0);
                        }
                    } else {
                        assert(nv[a] == ov[a - 1] && nv[b] == ov[b - 1]);
                    }
                }
                assert forall|e: (Seq<char>, Seq<char>)| #[trigger] nv.contains(e) <==> from_listing(
                    post,
                    exclude@,
                    e,
                ) by {
                    if nv.contains(e) {
                        let j = choose|j: int| 0 <= j < nv.len() && nv[j] == e;
                        if j == p {
                            assert(post[i as int] == tv[i as int]);
                            assert(record_of(post[i as int]) == e);
                        } else {
                            let jj = if j < p { j } else { j - 1 };
                            assert(ov[jj] == e);
                            assert(ov.contains(e));
                            let k = choose|k: int|
                                0 <= k < pre.len() && pre[k].0 != exclude@ && e == record_of(#[trigger] pre[k]);
                            assert(post[k] == pre[k]);
                        }
                    }
                    if from_listing(post, exclude@, e) {
                        let k = choose|k: int|
                            0 <= k < post.len() && post[k].0 != exclude@ && e == record_of(#[trigger] post[k]);
                        if k == i {
                            assert(nv[p as int] == e);
                        } else {
                            assert(post[k] == pre[k]);
                            assert(from_listing(pre, exclude@, e));
                            assert(ov.contains(e));
                            let j = choose|j: int| 0 <= j < ov.len() && ov[j] == e;
                            if j < p {
                                assert(nv[j] == e);
                            } else {
                                assert(nv[j + 1] == e);
                            }
                        }
                    }
                }
                assert forall|a: int, b: int|
                    0 <= a < b < post.len() && post[a].0 != exclude@ implies #[trigger] post[a].0
                    != #[trigger] post[b].0 by {
                    if b < i {
                        assert(post[a] == pre[a] && post[b] == pre[b]);
                    } else {
                        assert(post[a] == pre[a]);
                        assert(from_listing(pre, exclude@, record_of(pre[a])));
                        assert(ov.contains(record_of(pre[a])));
                        let j = choose|j: int| 0 <= j < ov.len() && ov[j] == record_of(pre[a]);
                        if j < p {
                            assert(seq_lt(ov[j].0, f.path@));
                            lemma_lt_irreflexive(f.path@);
                        } else {
                            if j > p {
                                lemma_lt_transitive(f.path@, ov[p as int].0, ov[j].0);
                            }
                            lemma_lt_irreflexive(f.path@);
                        }
                    }
                }
                assert forall|k: int| 0 <= k < post.len() && (#[trigger] post[k]).0 != exclude@ implies is_entry_path(
                    post[k].0,
                ) by {
                    if k < i {
                        assert(post[k] == pre[k]);
                    }
                }
            }
        } else {
            proof {
                assert(tv[i as int].0 == exclude@);
                assert forall|e: (Seq<char>, Seq<char>)| #[trigger] ov.contains(e) <==> from_listing(
                    post,
                    exclude@,
                    e,
                ) by {
                    if from_listing(post, exclude@, e) {
                        let k = choose|k: int|
                            0 <= k < post.len() && post[k].0 != exclude@ && e == record_of(#[trigger] post[k]);
                        assert(post[k] == pre[k]);
                        assert(from_listing(pre, exclude@, e));
                    }
                    if ov.contains(e) {
                        let k = choose|k: int|
                            0 <= k < pre.len() && pre[k].0 != exclude@ && e == record_of(#[trigger] pre[k]);
                        assert(post[k] == pre[k]);
                    }
                }
                assert forall|a: int, b: int|
                    0 <= a < b < post.len() && post[a].0 != exclude@ implies #[trigger] post[a].0
                    != #[trigger] post[b].0 by {
                    assert(post[a] == pre[a]);
                    if b < i {
                        assert(post[b] == pre[b]);
                    }
                }
                assert forall|k: int| 0 <= k < post.len() && (#[trigger] post[k]).0 != exclude@ implies is_entry_path(
                    post[k].0,
                ) by {
                    if k < i {
                        assert(post[k] == pre[k]);
                    }
                }
            }
        }
        i = i + 1;
    }
    assert(tv.take(i as int) =~= tv);
    Ok(out)
}

/// Completeness of the manifest: each file of the tree other than the
/// manifest has exactly one record, whose digest is the hex SHA-256 digest of
/// the file's contents; and each record is that of such a file.
pub proof fn lemma_manifest_complete(
    es: Seq<(Seq<char>, Seq<char>)>,
    files: Seq<(Seq<char>, Seq<u8>)>,
    exclude: Seq<char>,
)
    requires
        is_manifest_of(es, files, exclude),
    ensures
        forall|k: int|
            0 <= k < files.len() && files[k].0 != exclude ==> es.contains(
                #[trigger] record_of(files[k]),
            ),
        forall|e: (Seq<char>, Seq<char>)| #[trigger] es.contains(e) ==> from_listing(files, exclude, e),
        forall|a: int, b: int| 0 <= a < b < es.len() ==> es[a].0 != es[b].0,
{
    assert forall|k: int| 0 <= k < files.len() && files[k].0 != exclude implies es.contains(
        #[trigger] record_of(files[k]),
    ) by {
        assert(from_listing(files, exclude, record_of(files[k])));
    }
    assert forall|a: int, b: int| 0 <= a < b < es.len() implies es[a].0 != es[b].0 by {
        lemma_lt_irreflexive(es[a].0);
    }
}

proof fn lemma_sorted_unique(x: Seq<(Seq<char>, Seq<char>)>, y: Seq<(Seq<char>, Seq<char>)>)
    requires
        sorted_by_path(x),
        sorted_by_path(y),
        forall|e: (Seq<char>, Seq<char>)| #[trigger] x.contains(e) <==> y.contains(e),
    ensures
        x == y,
    decreases x.len() + y.len(),
{
    if x.len() == 0 || y.len() == 0 {
        if x.len() > 0 {
            assert(x.contains(x[0]));
            assert(y.contains(x[0]));
        }
        if y.len() > 0 {
            assert(y.contains(y[0]));
            assert(x.contains(y[0]));
        }
        assert(x =~= y);
    } else {
        assert(x.contains(x[0]) && y.contains(y[0]));
        assert(y.contains(x[0]) && x.contains(y[0]));
        let j = choose|j: int| 0 <= j < y.len() && y[j] == x[0];
        let i = choose|i: int| 0 <= i < x.len() && x[i] == y[0];
        if j > 0 && i > 0 {
            assert(seq_lt(y[0].0, y[j].0));
            assert(seq_lt(x[0].0, x[i].0));
            lemma_lt_asymmetric(x[0].0, y[0].0);
        }
        assert(x[0] == y[0]);
        let x1 = x.drop_first();
        let y1 = y.drop_first();
        assert forall|a: int, b: int| 0 <= a < b < x1.len() implies seq_lt(x1[a].0, x1[b].0) by {
            assert(x1[a] == x[a + 1] && x1[b] == x[b + 1]);
        }
        assert forall|a: int, b: int| 0 <= a < b < y1.len() implies seq_lt(y1[a].0, y1[b].0) by {
            assert(y1[a] == y[a + 1] && y1[b] == y[b + 1]);
        }
        assert forall|e: (Seq<char>, Seq<char>)| #[trigger] x1.contains(e) <==> y1.contains(e) by {
            if x1.contains(e) {
                let a = choose|a: int| 0 <= a < x1.len() && x1[a] == e;
                assert(x[a + 1] == e);
                assert(x.contains(e));
                assert(y.contains(e));
                let b = choose|b: int| 0 <= b < y.len() && y[b] == e;
                if b == 0 {
                    assert(seq_lt(x[0].0, x[a + 1].0));
                    lemma_lt_irreflexive(x[0].0);
                }
                assert(y1[b - 1] == e);
                assert(y1.contains(e));
            }
            if y1.contains(e) {
                let a = choose|a: int| 0 <= a < y1.len() && y1[a] == e;
                assert(y[a + 1] == e);
                assert(y.contains(e));
                assert(x.contains(e));
                let b = choose|b: int| 0 <= b < x.len() && x[b] == e;
                if b == 0 {
                    assert(seq_lt(y[0].0, y[a + 1].0));
                    lemma_lt_irreflexive(y[0].0);
                }
                assert(x1[b - 1] == e);
                assert(x1.contains(e));
            }
        }
        lemma_sorted_unique(x1, y1);
        assert(x =~= seq![x[0]] + x1);
        assert(y =~= seq![y[0]] + y1);
    }
}

/// Determinism of the manifest: two listings of byte-identical trees (the
/// same path and contents pairs, in any order) have the same manifest.
pub proof fn lemma_manifest_deterministic(
    a: Seq<(Seq<char>, Seq<u8>)>,
    b: Seq<(Seq<char>, Seq<u8>)>,
    exclude: Seq<char>,
    ma: Seq<(Seq<char>, Seq<char>)>,
    mb: Seq<(Seq<char>, Seq<char>)>,
)
    requires
        a.to_set() == b.to_set(),
        is_manifest_of(ma, a, exclude),
        is_manifest_of(mb, b, exclude),
    ensures
        ma == mb,
{
    assert forall|e: (Seq<char>, Seq<char>)| #[trigger] ma.contains(e) <==> mb.contains(e) by {
        if ma.contains(e) {
            let k = choose|k: int| 0 <= k < a.len() && a[k].0 != exclude && e == record_of(#[trigger] a[k]);
            assert(a.to_set().contains(a[k]));
            assert(b.to_set().contains(a[k]));
            let j = choose|j: int| 0 <= j < b.len() && b[j] == a[k];
            assert(from_listing(b, exclude, e));
        }
        if mb.contains(e) {
            let k = choose|k: int| 0 <= k < b.len() && b[k].0 != exclude && e == record_of(#[trigger] b[k]);
            assert(b.to_set().contains(b[k]));
            assert(a.to_set().contains(b[k]));
            let j = choose|j: int| 0 <= j < a.len() && a[j] == b[k];
            assert(from_listing(a, exclude, e));
        }
    }
    lemma_sorted_unique(ma, mb);
}

/// The text of one record: `<path>|||<digest>` and a line break.
pub open spec fn record_text(e: (Seq<char>, Seq<char>)) -> Seq<char> {
    e.0 + separator() + e.1 + "\n"@
}

/// The text of a manifest: its records one after another.
pub open spec fn manifest_text(es: Seq<(Seq<char>, Seq<char>)>) -> Seq<char>
    decreases es.len(),
{
    if es.len() == 0 {
        Seq::empty()
    } else {
        manifest_text(es.drop_last()) + record_text(es.last())
    }
}

/// Writes the records as the text of the manifest file.
pub fn render_manifest(entries: &Vec<ChecksumEntry>) -> (r: String)
    ensures
        r@ == manifest_text(entries_view(entries@)),
{
    let ghost ev = entries_view(entries@);
    let mut r = String::new();
    let mut i: usize = 0;
    while i < entries.len()
        invariant
            i <= entries@.len(),
            ev == entries_view(entries@),
            r@ == manifest_text(ev.take(i as int)),
        decreases entries@.len() - i,
    {
        let e = &entries[i];
        r.append(e.path.as_str());
        r.append("|||");
        r.append(e.digest.as_str());
        r.append("\n");
        proof {
            let t = ev.take(i as int + 1);
            assert(t.drop_last() =~= ev.take(i as int));
            assert(t.last() == ev[i as int]);
            assert(ev[i as int] == (e.path@, e.digest@));
            assert(r@ =~= manifest_text(ev.take(i as int)) + record_text(ev[i as int]));
        }
        i = i + 1;
    }
    assert(ev.take(i as int) =~= ev);
    r
}

/// The text of the manifest of a listing of the release tree.
pub fn write_checksums(files: &Vec<TreeFile>, exclude: &str) -> (r: Result<String, ReleaseError>)
    ensures
        listing_ok(tree_view(files@), exclude@) ==> r is Ok && exists|es: Seq<(Seq<char>, Seq<char>)>|
            is_manifest_of(es, tree_view(files@), exclude@) && r->Ok_0@ == manifest_text(es),
        !listing_ok(tree_view(files@), exclude@) ==> r == Err::<String, ReleaseError>(
            ReleaseError::Checksum,
        ),
{
    match manifest_entries(files, exclude) {
        Ok(es) => Ok(render_manifest(&es)),
        Err(e) => Err(e),
    }
}

/// The hex SHA-256 digest of a file's contents, as a manifest records it.
pub fn calculate_sha256(data: &[u8]) -> (r: String)
    ensures
        r@ == hex_seq(sha256_of(data@)),
{
    to_hex(sha256(data).as_slice())
}

} // verus!
