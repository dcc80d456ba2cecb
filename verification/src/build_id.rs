//! What tells one build of the program from another.

use vstd::prelude::*;
use vstd::utf8::*;

use crate::order;
use crate::order::stable_text_order;
use crate::paths;
use crate::paths::path_order_key;
use crate::text;
use crate::text::{push_hex, text_eq};

verus! {

/// The value that the hash of nothing has.
pub const FNV_OFFSET: u64 = 0xcbf29ce484222325;

/// What the hash is multiplied by for each byte.
pub const FNV_PRIME: u64 = 0x100000001b3;

/// The hash `hash` taken on by one byte.
pub open spec fn hash_byte(hash: u64, byte: u8) -> u64 {
    (((hash ^ (byte as u64)) as int * FNV_PRIME) % 0x1_0000_0000_0000_0000) as u64
}

/// The hash `hash` taken on by the bytes, one after the other.
pub open spec fn hashed(hash: u64, bytes: Seq<u8>) -> u64
    decreases bytes.len(),
{
    if bytes.len() == 0 {
        hash
    } else {
        hash_byte(hashed(hash, bytes.drop_last()), bytes.last())
    }
}

/// Takes the hash on by the bytes.
pub fn hash_bytes(hash: &mut u64, bytes: &[u8])
    ensures
        *final(hash) == hashed(*old(hash), bytes@),
{
    let mut i: usize = 0;
    assert(bytes@.take(0) =~= seq![]);
    while i < bytes.len()
        invariant
            i <= bytes@.len(),
            *hash == hashed(*old(hash), bytes@.take(i as int)),
        decreases bytes@.len() - i,
    {
        let ghost before = *hash;
        let mixed: u64 = *hash ^ (bytes[i] as u64);
        *hash = mixed.wrapping_mul(FNV_PRIME);
        assert(bytes@.take(i + 1).drop_last() =~= bytes@.take(i as int));
        assert(*hash == hash_byte(before, bytes@[i as int]));
        i = i + 1;
    }
    assert(bytes@.take(i as int) =~= bytes@);
}

/// Hashing one piece after another is hashing them as one.
pub proof fn pieces_hash_as_one(hash: u64, a: Seq<u8>, b: Seq<u8>)
    ensures
        hashed(hashed(hash, a), b) == hashed(hash, a + b),
    decreases b.len(),
{
    if b.len() == 0 {
        assert(a + b =~= a);
    } else {
        pieces_hash_as_one(hash, a, b.drop_last());
        assert((a + b).drop_last() =~= a + b.drop_last());
    }
}

/// A source file: its path, and what it holds.
#[derive(Clone, Debug)]
pub struct SourceFile {
    pub path: String,
    pub content: Vec<u8>,
}

/// A source file as a mathematical value.
pub struct Source {
    pub path: Seq<char>,
    pub content: Seq<u8>,
}

pub open spec fn sources(files: Seq<SourceFile>) -> Seq<Source> {
    files.map_values(|f: SourceFile| Source { path: f.path@, content: f.content@ })
}

/// The paths and contents of the files, one after the other.
pub open spec fn joined(v: Seq<Source>) -> Seq<u8>
    decreases v.len(),
{
    if v.len() == 0 {
        seq![]
    } else {
        joined(v.drop_last()) + encode_utf8(v.last().path) + v.last().content
    }
}

/// The keys that order the files by their paths.
pub open spec fn source_keys(v: Seq<Source>) -> Seq<Seq<char>> {
    v.map_values(|f: Source| paths::path_key(f.path))
}

/// The files by their paths, which are ordered part by part.
pub open spec fn by_path(v: Seq<Source>) -> Seq<Source> {
    order::stable_order(source_keys(v), order::by_text(), v.len() as int).map_values(
        |i: int| v[i],
    )
}

/// The hash of the source files: of their paths and contents, by path.
pub fn source_hash(files: &Vec<SourceFile>) -> (r: u64)
    ensures
        r == hashed(FNV_OFFSET, joined(by_path(sources(files@)))),
{
    let ghost all = sources(files@);
    let mut keys: Vec<String> = Vec::new();
    let mut i: usize = 0;
    while i < files.len()
        invariant
            i <= files@.len(),
            all == sources(files@),
            order::texts(keys@) == source_keys(all).take(i as int),
        decreases files@.len() - i,
    {
        let ghost had = keys@;
        let key: String = path_order_key(files[i].path.as_str());
        let ghost k = key@;
        keys.push(key);
        assert(order::texts(keys@) =~= order::texts(had).push(k));
        assert(source_keys(all).take(i + 1) =~= source_keys(all).take(i as int).push(k));
        i = i + 1;
    }
    assert(order::texts(keys@) =~= source_keys(all));
    assert(keys@.len() == order::texts(keys@).len());
    let order: Vec<usize> = stable_text_order(&keys);
    let ghost at = order::positions(order@);
    let ghost sorted = by_path(all);
    let mut hash: u64 = FNV_OFFSET;
    let mut p: usize = 0;
    assert(sorted.take(0) =~= seq![]);
    while p < order.len()
        invariant
            p <= order@.len() == files@.len(),
            all == sources(files@),
            sorted == by_path(all),
            at == order::positions(order@),
            at == order::stable_order(source_keys(all), order::by_text(), all.len() as int),
            order::is_permutation(at, files@.len() as int),
            hash == hashed(FNV_OFFSET, joined(sorted.take(p as int))),
        decreases order@.len() - p,
    {
        let ghost before = joined(sorted.take(p as int));
        assert(at[p as int] == order@[p as int]);
        let file: &SourceFile = &files[order[p]];
        hash_bytes(&mut hash, file.path.as_str().as_bytes());
        hash_bytes(&mut hash, file.content.as_slice());
        proof {
            let f = sorted[p as int];
            assert(f == all[order@[p as int] as int]);
            pieces_hash_as_one(FNV_OFFSET, before, encode_utf8(f.path));
            pieces_hash_as_one(FNV_OFFSET, before + encode_utf8(f.path), f.content);
            assert(sorted.take(p + 1).drop_last() =~= sorted.take(p as int));
        }
        p = p + 1;
    }
    assert(sorted.take(p as int) =~= sorted);
    hash
}

/// The files have paths, and no two have the same one.
pub open spec fn paths_differ(v: Seq<Source>) -> bool {
    &&& forall|i: int| 0 <= i < v.len() ==> paths::is_path(#[trigger] v[i].path)
    &&& forall|i: int, j: int|
        0 <= i < j < v.len() ==> !paths::same(#[trigger] v[i].path, #[trigger] v[j].path)
}

/// The two lists have the same files.
pub open spec fn same_files(a: Seq<Source>, b: Seq<Source>) -> bool {
    forall|f: Source| a.contains(f) <==> b.contains(f)
}

/// Each file comes before all that follow it.
spec fn in_order(v: Seq<Source>) -> bool {
    forall|p: int, q: int|
        0 <= p < q < v.len() ==> {
            let x = paths::path_key(#[trigger] v[p].path);
            let y = paths::path_key(#[trigger] v[q].path);
            text::text_le(x, y) && x != y
        }
}

proof fn sorting_puts_in_order(v: Seq<Source>)
    requires
        paths_differ(v),
    ensures
        in_order(by_path(v)),
        same_files(by_path(v), v),
{
    let keys = source_keys(v);
    let n = v.len() as int;
    let at = order::stable_order(keys, order::by_text(), n);
    let sorted = by_path(v);
    order::a_stable_order_is_a_permutation(keys, order::by_text(), n);
    order::texts_are_ordered();
    assert forall|p: int, q: int| 0 <= p < q < sorted.len() implies ({
        let x = paths::path_key(#[trigger] sorted[p].path);
        let y = paths::path_key(#[trigger] sorted[q].path);
        text::text_le(x, y) && x != y
    }) by {
        order::a_stable_order_is_sorted(keys, order::by_text(), n, p, q);
        let i = at[p];
        let j = at[q];
        assert(i != j);
        assert(keys[i] == paths::path_key(v[i].path));
        assert(keys[j] == paths::path_key(v[j].path));
        paths::a_place_in_the_order_is_of_one_path(v[i].path, v[j].path);
        assert(!paths::same(v[if i < j { i } else { j }].path, v[if i < j { j } else { i }].path));
    }
    assert forall|f: Source| sorted.contains(f) <==> v.contains(f) by {
        if sorted.contains(f) {
            let p = sorted.index_of(f);
            assert(v[at[p]] == f);
        }
        if v.contains(f) {
            let i = v.index_of(f);
            order::a_permutation_reaches(keys, order::by_text(), n, i);
            let p = choose|p: int| 0 <= p < n && at[p] == i;
            assert(sorted[p] == f);
        }
    }
}

proof fn one_order_for_the_same_files(a: Seq<Source>, b: Seq<Source>)
    requires
        in_order(a),
        in_order(b),
        same_files(a, b),
    ensures
        a == b,
    decreases a.len(),
{
    if a.len() == 0 {
        if b.len() > 0 {
            assert(b.contains(b[0]));
        }
        assert(a =~= b);
    } else {
        assert(a.contains(a[0]));
        let k = b.index_of(a[0]);
        assert(b.contains(b[0]));
        let j = a.index_of(b[0]);
        let x = paths::path_key(a[0].path);
        let y = paths::path_key(b[0].path);
        assert(b[k].path == a[0].path && a[j].path == b[0].path);
        if k > 0 {
            assert(text::text_le(y, x) && x != y);
            if j > 0 {
                assert(text::text_le(x, y));
                text::text_le_antisymmetric(x, y);
            }
            assert(false);
        }
        let ra = a.skip(1);
        let rb = b.skip(1);
        assert forall|f: Source| ra.contains(f) <==> rb.contains(f) by {
            if ra.contains(f) {
                let p = ra.index_of(f);
                assert(a[p + 1] == f && a[0].path == a[0].path && a[p + 1].path == f.path);
                assert(b.contains(f));
                let q = b.index_of(f);
                assert(q > 0);
                assert(rb[q - 1] == f);
            }
            if rb.contains(f) {
                let p = rb.index_of(f);
                assert(b[p + 1] == f && b[0].path == b[0].path && b[p + 1].path == f.path);
                assert(a.contains(f));
                let q = a.index_of(f);
                assert(q > 0);
                assert(ra[q - 1] == f);
            }
        }
        assert(in_order(ra)) by {
            assert forall|p: int, q: int| 0 <= p < q < ra.len() implies ({
                let x = paths::path_key(#[trigger] ra[p].path);
                let y = paths::path_key(#[trigger] ra[q].path);
                text::text_le(x, y) && x != y
            }) by {
                assert(ra[p].path == a[p + 1].path && ra[q].path == a[q + 1].path);
            }
        }
        assert(in_order(rb)) by {
            assert forall|p: int, q: int| 0 <= p < q < rb.len() implies ({
                let x = paths::path_key(#[trigger] rb[p].path);
                let y = paths::path_key(#[trigger] rb[q].path);
                text::text_le(x, y) && x != y
            }) by {
                assert(rb[p].path == b[p + 1].path && rb[q].path == b[q + 1].path);
            }
        }
        one_order_for_the_same_files(ra, rb);
        assert(a =~= seq![a[0]] + ra);
        assert(b =~= seq![b[0]] + rb);
    }
}

/// The order in which the files are listed does not matter: two lists of the same files, no two with
/// the same path, have the same hash.
pub proof fn the_order_of_listing_does_not_matter(a: Seq<Source>, b: Seq<Source>)
    requires
        paths_differ(a),
        paths_differ(b),
        same_files(a, b),
    ensures
        by_path(a) == by_path(b),
        hashed(FNV_OFFSET, joined(by_path(a))) == hashed(FNV_OFFSET, joined(by_path(b))),
{
    sorting_puts_in_order(a);
    sorting_puts_in_order(b);
    let x = by_path(a);
    let y = by_path(b);
    assert forall|f: Source| x.contains(f) <==> y.contains(f) by {
        assert(a.contains(f) <==> b.contains(f));
    }
    one_order_for_the_same_files(x, y);
}

/// The name of a build: a release is known by its version, any other by the hash of its sources.
pub open spec fn build_name(profile: Seq<char>, version: Seq<char>, hash: u64) -> Seq<char> {
    if profile == "release"@ {
        "release-"@ + version
    } else {
        "dev-"@ + text::hex(hash as nat, 16)
    }
}

/// The name of a build.
pub fn build_id(profile: &str, version: &str, hash: u64) -> (r: String)
    ensures
        r@ == build_name(profile@, version@, hash),
{
    let mut r: String = String::new();
    if text_eq(profile, "release") {
        r.append("release-");
        r.append(version);
    } else {
        r.append("dev-");
        push_hex(&mut r, hash as u128, 16);
    }
    assert(r@ =~= build_name(profile@, version@, hash));
    r
}

/// A byte is taken into the hash by an exclusive or and a multiplication with the prime, modulo 2^64;
/// bytes are taken in from the first to the last.
pub proof fn bytes_are_hashed_one_by_one(hash: u64, bytes: Seq<u8>, byte: u8)
    ensures
        hashed(hash, seq![]) == hash,
        hashed(hash, bytes.push(byte)) == hash_byte(hashed(hash, bytes), byte),
        hash_byte(hash, byte) == ((hash ^ (byte as u64)) * 1099511628211)
            % 18446744073709551616,
        FNV_OFFSET == 14695981039346656037,
{
    assert(bytes.push(byte).drop_last() =~= bytes);
    assert(bytes.push(byte).last() == byte);
}

/// A file counts with its path and then its content, in the order of the files.
pub proof fn a_file_counts_with_its_path_and_content(v: Seq<Source>, f: Source)
    ensures
        joined(seq![]).len() == 0,
        joined(v.push(f)) == joined(v) + encode_utf8(f.path) + f.content,
{
    assert(v.push(f).drop_last() =~= v);
    assert(v.push(f).last() == f);
}

/// A file is told by its path and its content.
pub proof fn sources_are_told_by_their_parts(files: Seq<SourceFile>, k: int)
    requires
        0 <= k < files.len(),
    ensures
        sources(files).len() == files.len(),
        sources(files)[k].path == files[k].path@,
        sources(files)[k].content == files[k].content@,
{
}

/// The files are put in the order of their paths; none is lost and none comes twice.
pub proof fn files_are_put_by_path(v: Seq<Source>, p: int, q: int, i: int)
    requires
        0 <= p < q < v.len(),
        0 <= i < v.len(),
    ensures
        by_path(v).len() == v.len(),
        by_path(v).contains(v[i]),
        text::text_le(paths::path_key(by_path(v)[p].path), paths::path_key(by_path(v)[q].path)),
{
    let keys = source_keys(v);
    let n = v.len() as int;
    order::texts_are_ordered();
    order::a_stable_order_is_a_permutation(keys, order::by_text(), n);
    order::a_stable_order_is_sorted(keys, order::by_text(), n, p, q);
    order::a_permutation_reaches(keys, order::by_text(), n, i);
    let places = order::stable_order(keys, order::by_text(), n);
    assert(0 <= places[p] < n && 0 <= places[q] < n);
    let w = choose|w: int| 0 <= w < n && places[w] == i;
    assert(by_path(v)[w] == v[i]);
    assert(order::by_text()(keys[places[p]], keys[places[q]]));
}

/// A release is named by its version; any other build by the hash of its files, in sixteen digits.
pub proof fn a_build_is_named_by_its_profile(profile: Seq<char>, version: Seq<char>, hash: u64)
    ensures
        profile == "release"@ ==> build_name(profile, version, hash) == "release-"@ + version,
        profile != "release"@ ==> build_name(profile, version, hash).len() == 20
            && build_name(profile, version, hash).take(4) == seq!['d', 'e', 'v', '-']
            && text::hex_number_of(build_name(profile, version, hash).skip(4)) == hash,
{
    reveal_strlit("dev-");
    let digits = text::hex(hash as nat, 16);
    text::a_hexadecimal_form_reads_as_its_number(hash as nat, 16);
    reveal_with_fuel(text::fits_hex, 17);
    assert(("dev-"@ + digits).take(4) =~= seq!['d', 'e', 'v', '-']);
    assert(("dev-"@ + digits).skip(4) =~= digits);
}

} // verus!
