//! The byte format in which channel records are persisted: a count
//! followed by the packages, strings as length-prefixed UTF-8, numbers in
//! little-endian order. Decoding is the exact inverse of encoding, so a
//! record written and read back holds the same packages.

use vstd::prelude::*;

use vstd::utf8::{decode_utf8, encode_utf8, encode_utf8_decode_utf8, encode_utf8_valid_utf8,
    valid_utf8};

use crate::package::{models, BuildModel, Package, PackageState, PackageStatus, PkgModel};

verus! {

/// A `u64` as eight little-endian bytes.
pub open spec fn enc_u64(x: u64) -> Seq<u8> {
    seq![
        (x & 0xff) as u8,
        ((x >> 8) & 0xff) as u8,
        ((x >> 16) & 0xff) as u8,
        ((x >> 24) & 0xff) as u8,
        ((x >> 32) & 0xff) as u8,
        ((x >> 40) & 0xff) as u8,
        ((x >> 48) & 0xff) as u8,
        ((x >> 56) & 0xff) as u8,
    ]
}

/// A string as its UTF-8 byte length followed by its UTF-8 bytes.
pub open spec fn enc_str(s: Seq<char>) -> Seq<u8> {
    enc_u64(encode_utf8(s).len() as u64) + encode_utf8(s)
}

/// A build line as a channel tag, with the sub-identifier for daily and
/// branched builds.
pub open spec fn enc_build(b: BuildModel) -> Seq<u8> {
    match b {
        BuildModel::Daily(s) => seq![0u8] + enc_str(s),
        BuildModel::Branched(s) => seq![1u8] + enc_str(s),
        BuildModel::Stable => seq![2u8],
        BuildModel::Lts => seq![3u8],
        BuildModel::Archived => seq![4u8],
    }
}

/// A status tag.
pub open spec fn enc_status(s: PackageStatus) -> Seq<u8> {
    match s {
        PackageStatus::Update => seq![0u8],
        PackageStatus::New => seq![1u8],
        PackageStatus::Old => seq![2u8],
    }
}

/// A lifecycle state as a tag, with the percentage for the two progress
/// states.
pub open spec fn enc_state(s: PackageState) -> Seq<u8> {
    match s {
        PackageState::Fetched => seq![0u8],
        PackageState::Downloading { progress } => seq![1u8, progress],
        PackageState::Extracting { progress } => seq![2u8, progress],
        PackageState::Installed => seq![3u8],
        PackageState::Errored => seq![4u8],
    }
}

/// One package: name, version, date, url, build, status, state.
pub open spec fn enc_pkg(p: PkgModel) -> Seq<u8> {
    enc_str(p.name) + enc_str(p.version) + enc_u64(p.date) + enc_str(p.url) + enc_build(p.build)
        + enc_status(p.status) + enc_state(p.state)
}

/// The packages of a record, one after another.
pub open spec fn enc_list(ms: Seq<PkgModel>) -> Seq<u8>
    decreases ms.len(),
{
    if ms.len() == 0 {
        Seq::empty()
    } else {
        enc_pkg(ms[0]) + enc_list(ms.drop_first())
    }
}

/// A whole record: the package count, then the packages.
pub open spec fn enc_record(ms: Seq<PkgModel>) -> Seq<u8> {
    enc_u64(ms.len() as u64) + enc_list(ms)
}

/// Append eight little-endian bytes of a `u64`.
fn push_u64(out: &mut Vec<u8>, x: u64)
    ensures
        final(out)@ =~= old(out)@ + enc_u64(x),
{
    out.push((x & 0xff) as u8);
    out.push(((x >> 8) & 0xff) as u8);
    out.push(((x >> 16) & 0xff) as u8);
    out.push(((x >> 24) & 0xff) as u8);
    out.push(((x >> 32) & 0xff) as u8);
    out.push(((x >> 40) & 0xff) as u8);
    out.push(((x >> 48) & 0xff) as u8);
    out.push(((x >> 56) & 0xff) as u8);
}

/// Append a length-prefixed string.
fn push_str(out: &mut Vec<u8>, s: &String)
    ensures
        final(out)@ =~= old(out)@ + enc_str(s@),
{
    let mut bytes = s.as_str().as_bytes_vec();
    let n = bytes.len();
    push_u64(out, n as u64);
    out.append(&mut bytes);
}

/// Append one package.
#[verifier::rlimit(100)]
fn push_pkg(out: &mut Vec<u8>, p: &Package)
    ensures
        final(out)@ =~= old(out)@ + enc_pkg(p@),
{
    push_str(out, &p.name);
    push_str(out, &p.version);
    push_u64(out, p.date);
    push_str(out, &p.url);
    match &p.build {
        crate::package::Build::Daily(s) => {
            out.push(0u8);
            push_str(out, s);
        },
        crate::package::Build::Branched(s) => {
            out.push(1u8);
            push_str(out, s);
        },
        crate::package::Build::Stable => out.push(2u8),
        crate::package::Build::Lts => out.push(3u8),
        crate::package::Build::Archived => out.push(4u8),
    }
    match p.status {
        PackageStatus::Update => out.push(0u8),
        PackageStatus::New => out.push(1u8),
        PackageStatus::Old => out.push(2u8),
    }
    match p.state {
        PackageState::Fetched => out.push(0u8),
        PackageState::Downloading { progress } => {
            out.push(1u8);
            out.push(progress);
        },
        PackageState::Extracting { progress } => {
            out.push(2u8);
            out.push(progress);
        },
        PackageState::Installed => out.push(3u8),
        PackageState::Errored => out.push(4u8),
    }
}

/// Encode a whole channel record.
pub fn encode_record(packages: &Vec<Package>) -> (out: Vec<u8>)
    ensures
        out@ =~= enc_record(models(packages@)),
{
    let ghost ms = models(packages@);
    let mut out: Vec<u8> = Vec::new();
    let n = packages.len();
    push_u64(&mut out, n as u64);
    let mut i: usize = 0;
    while i < n
        invariant
            n == packages@.len(),
            ms == models(packages@),
            i <= n,
            out@ =~= enc_u64(n as u64) + enc_list(ms.take(i as int)),
        decreases n - i,
    {
        push_pkg(&mut out, &packages[i]);
        proof {
            assert(ms.take(i + 1) =~= ms.take(i as int).push(ms[i as int]));
            lemma_enc_list_push(ms.take(i as int), ms[i as int]);
        }
        i += 1;
    }
    assert(ms.take(n as int) =~= ms);
    out
}

/// Encoding one more package appends its bytes.
proof fn lemma_enc_list_push(s: Seq<PkgModel>, x: PkgModel)
    ensures
        enc_list(s.push(x)) =~= enc_list(s) + enc_pkg(x),
    decreases s.len(),
{
    if s.len() == 0 {
        assert(s.push(x)[0] == x);
        assert(s.push(x).drop_first() =~= Seq::empty());
        assert(enc_list(s.push(x)) == enc_pkg(x) + enc_list(s.push(x).drop_first()));
        assert(enc_list(s) == Seq::<u8>::empty());
        assert(enc_list(s.push(x)) =~= enc_list(s) + enc_pkg(x));
    } else {
        lemma_enc_list_push(s.drop_first(), x);
        assert(s.push(x).drop_first() =~= s.drop_first().push(x));
        assert(s.push(x)[0] == s[0]);
        assert(enc_list(s) == enc_pkg(s[0]) + enc_list(s.drop_first()));
        assert(enc_list(s.push(x)) == enc_pkg(s[0]) + enc_list(s.drop_first().push(x)));
        assert(enc_pkg(s[0]) + (enc_list(s.drop_first()) + enc_pkg(x)) =~= (enc_pkg(s[0])
            + enc_list(s.drop_first())) + enc_pkg(x));
        assert(enc_list(s.push(x)) =~= (enc_pkg(s[0]) + enc_list(s.drop_first())) + enc_pkg(x));
        assert(enc_list(s.push(x)) =~= enc_list(s) + enc_pkg(x));
    }
}

/// The `u64` whose little-endian bytes sit at `pos`.
pub open spec fn u64_at(b: Seq<u8>, pos: int) -> u64 {
    (b[pos] as u64) | ((b[pos + 1] as u64) << 8) | ((b[pos + 2] as u64) << 16) | ((b[pos
        + 3] as u64) << 24) | ((b[pos + 4] as u64) << 32) | ((b[pos + 5] as u64) << 40) | ((
    b[pos + 6] as u64) << 48) | ((b[pos + 7] as u64) << 56)
}

/// Read a `u64` at `pos`; `None` when the bytes run out.
pub open spec fn dec_u64_at(b: Seq<u8>, pos: int) -> Option<(u64, int)> {
    if 0 <= pos && pos + 8 <= b.len() {
        Some((u64_at(b, pos), pos + 8))
    } else {
        None
    }
}

/// Read a length-prefixed UTF-8 string at `pos`.
pub open spec fn dec_str_at(b: Seq<u8>, pos: int) -> Option<(Seq<char>, int)> {
    match dec_u64_at(b, pos) {
        Some((n, p)) => if p + n <= b.len() && valid_utf8(b.subrange(p, p + n)) {
            Some((decode_utf8(b.subrange(p, p + n)), p + n))
        } else {
            None
        },
        None => None,
    }
}

/// Read a build line at `pos`.
pub open spec fn dec_build_at(b: Seq<u8>, pos: int) -> Option<(BuildModel, int)> {
    if 0 <= pos < b.len() {
        if b[pos] == 0 {
            match dec_str_at(b, pos + 1) {
                Some((s, p)) => Some((BuildModel::Daily(s), p)),
                None => None,
            }
        } else if b[pos] == 1 {
            match dec_str_at(b, pos + 1) {
                Some((s, p)) => Some((BuildModel::Branched(s), p)),
                None => None,
            }
        } else if b[pos] == 2 {
            Some((BuildModel::Stable, pos + 1))
        } else if b[pos] == 3 {
            Some((BuildModel::Lts, pos + 1))
        } else if b[pos] == 4 {
            Some((BuildModel::Archived, pos + 1))
        } else {
            None
        }
    } else {
        None
    }
}

/// Read a status tag at `pos`.
pub open spec fn dec_status_at(b: Seq<u8>, pos: int) -> Option<(PackageStatus, int)> {
    if 0 <= pos < b.len() {
        if b[pos] == 0 {
            Some((PackageStatus::Update, pos + 1))
        } else if b[pos] == 1 {
            Some((PackageStatus::New, pos + 1))
        } else if b[pos] == 2 {
            Some((PackageStatus::Old, pos + 1))
        } else {
            None
        }
    } else {
        None
    }
}

/// Read a lifecycle state at `pos`.
pub open spec fn dec_state_at(b: Seq<u8>, pos: int) -> Option<(PackageState, int)> {
    if 0 <= pos < b.len() {
        if b[pos] == 0 {
            Some((PackageState::Fetched, pos + 1))
        } else if b[pos] == 1 && pos + 1 < b.len() {
            Some((PackageState::Downloading { progress: b[pos + 1] }, pos + 2))
        } else if b[pos] == 2 && pos + 1 < b.len() {
            Some((PackageState::Extracting { progress: b[pos + 1] }, pos + 2))
        } else if b[pos] == 3 {
            Some((PackageState::Installed, pos + 1))
        } else if b[pos] == 4 {
            Some((PackageState::Errored, pos + 1))
        } else {
            None
        }
    } else {
        None
    }
}

/// Read one package at `pos`.
pub open spec fn dec_pkg_at(b: Seq<u8>, pos: int) -> Option<(PkgModel, int)> {
    match dec_str_at(b, pos) {
        Some((name, p1)) => match dec_str_at(b, p1) {
            Some((version, p2)) => match dec_u64_at(b, p2) {
                Some((date, p3)) => match dec_str_at(b, p3) {
                    Some((url, p4)) => match dec_build_at(b, p4) {
                        Some((build, p5)) => match dec_status_at(b, p5) {
                            Some((status, p6)) => match dec_state_at(b, p6) {
                                Some((state, p7)) => Some(
                                    (
                                        PkgModel {
                                            name: name,
                                            version: version,
                                            date: date,
                                            url: url,
                                            build: build,
                                            status: status,
                                            state: state,
                                        },
                                        p7,
                                    ),
                                ),
                                None => None,
                            },
                            None => None,
                        },
                        None => None,
                    },
                    None => None,
                },
                None => None,
            },
            None => None,
        },
        None => None,
    }
}

/// Read `k` packages one after another, starting at `pos`.
pub open spec fn dec_list_at(b: Seq<u8>, pos: int, k: nat) -> Option<(Seq<PkgModel>, int)>
    decreases k,
{
    if k == 0 {
        if 0 <= pos <= b.len() {
            Some((Seq::empty(), pos))
        } else {
            None
        }
    } else {
        match dec_pkg_at(b, pos) {
            Some((p, p2)) => match dec_list_at(b, p2, (k - 1) as nat) {
                Some((rest, p3)) => Some((seq![p] + rest, p3)),
                None => None,
            },
            None => None,
        }
    }
}

/// Read a whole record: the count, then exactly that many packages, with
/// nothing left over.
pub open spec fn dec_record(b: Seq<u8>) -> Option<Seq<PkgModel>> {
    match dec_u64_at(b, 0) {
        Some((n, p)) => match dec_list_at(b, p, n as nat) {
            Some((ms, p2)) => if p2 == b.len() {
                Some(ms)
            } else {
                None
            },
            None => None,
        },
        None => None,
    }
}

/// Whether a string's UTF-8 length fits the length prefix.
pub open spec fn str_fits(s: Seq<char>) -> bool {
    encode_utf8(s).len() <= u64::MAX
}

/// Whether every string of a package fits its length prefix.
pub open spec fn pkg_fits(p: PkgModel) -> bool {
    &&& str_fits(p.name)
    &&& str_fits(p.version)
    &&& str_fits(p.url)
    &&& match p.build {
        BuildModel::Daily(s) => str_fits(s),
        BuildModel::Branched(s) => str_fits(s),
        _ => true,
    }
}

/// Whether a record's count and every string fit their prefixes. Any
/// record held in memory does.
pub open spec fn record_fits(ms: Seq<PkgModel>) -> bool {
    ms.len() <= u64::MAX && forall|i: int| 0 <= i < ms.len() ==> #[trigger] pkg_fits(ms[i])
}

/// Eight little-endian bytes read back as the number they encode.
proof fn lemma_dec_u64(b: Seq<u8>, pos: int, x: u64)
    requires
        0 <= pos,
        pos + 8 <= b.len(),
        b.subrange(pos, pos + 8) == enc_u64(x),
    ensures
        dec_u64_at(b, pos) == Some((x, pos + 8)),
{
    let e = enc_u64(x);
    assert forall|i: int| 0 <= i < 8 implies b[pos + i] == e[i] by {
        assert(b.subrange(pos, pos + 8)[i] == b[pos + i]);
    }
    let b0 = b[pos];
    let b1 = b[pos + 1];
    let b2 = b[pos + 2];
    let b3 = b[pos + 3];
    let b4 = b[pos + 4];
    let b5 = b[pos + 5];
    let b6 = b[pos + 6];
    let b7 = b[pos + 7];
    assert(b0 == (x & 0xff) as u8 && b1 == ((x >> 8) & 0xff) as u8 && b2 == ((x >> 16)
        & 0xff) as u8 && b3 == ((x >> 24) & 0xff) as u8 && b4 == ((x >> 32) & 0xff) as u8 && b5
        == ((x >> 40) & 0xff) as u8 && b6 == ((x >> 48) & 0xff) as u8 && b7 == ((x >> 56)
        & 0xff) as u8);
    assert((b0 as u64) | ((b1 as u64) << 8) | ((b2 as u64) << 16) | ((b3 as u64) << 24) | ((
    b4 as u64) << 32) | ((b5 as u64) << 40) | ((b6 as u64) << 48) | ((b7 as u64) << 56) == x)
        by (bit_vector)
        requires
            b0 == (x & 0xff) as u8,
            b1 == ((x >> 8) & 0xff) as u8,
            b2 == ((x >> 16) & 0xff) as u8,
            b3 == ((x >> 24) & 0xff) as u8,
            b4 == ((x >> 32) & 0xff) as u8,
            b5 == ((x >> 40) & 0xff) as u8,
            b6 == ((x >> 48) & 0xff) as u8,
            b7 == ((x >> 56) & 0xff) as u8,
    ;
}

/// A length-prefixed UTF-8 string reads back as itself.
proof fn lemma_dec_str(b: Seq<u8>, pos: int, s: Seq<char>)
    requires
        str_fits(s),
        0 <= pos,
        pos + enc_str(s).len() <= b.len(),
        b.subrange(pos, pos + enc_str(s).len()) == enc_str(s),
    ensures
        dec_str_at(b, pos) == Some((s, pos + enc_str(s).len())),
{
    let n = encode_utf8(s).len() as int;
    let e = enc_str(s);
    assert(e.len() == 8 + n);
    assert(b.subrange(pos, pos + 8) =~= enc_u64(n as u64)) by {
        assert forall|i: int| 0 <= i < 8 implies #[trigger] b.subrange(pos, pos + 8)[i]
            == enc_u64(n as u64)[i] by {
            assert(b.subrange(pos, pos + e.len())[i] == b[pos + i]);
            assert(e[i] == enc_u64(n as u64)[i]);
        }
    }
    lemma_dec_u64(b, pos, n as u64);
    assert(n as u64 as int == n);
    assert(b.subrange(pos + 8, pos + 8 + n) =~= encode_utf8(s)) by {
        assert forall|i: int| 0 <= i < n implies b.subrange(pos + 8, pos + 8 + n)[i]
            == encode_utf8(s)[i] by {
            assert(b.subrange(pos, pos + e.len())[8 + i] == b[pos + 8 + i]);
            assert(e[8 + i] == encode_utf8(s)[i]);
        }
    }
    encode_utf8_valid_utf8(s);
    encode_utf8_decode_utf8(s);
}

/// A piece of a byte range equal to `whole` matches the piece of `whole`.
proof fn lemma_chunk(b: Seq<u8>, pos: int, whole: Seq<u8>, off: int, part: Seq<u8>)
    requires
        0 <= pos,
        pos + whole.len() <= b.len(),
        b.subrange(pos, pos + whole.len()) == whole,
        0 <= off,
        off + part.len() <= whole.len(),
        forall|i: int| 0 <= i < part.len() ==> whole[off + i] == #[trigger] part[i],
    ensures
        b.subrange(pos + off, pos + off + part.len()) =~= part,
{
    assert forall|i: int| 0 <= i < part.len() implies #[trigger] b.subrange(
        pos + off,
        pos + off + part.len(),
    )[i] == part[i] by {
        assert(b.subrange(pos, pos + whole.len())[off + i] == b[pos + off + i]);
    }
}

/// An encoded build line reads back as itself.
proof fn lemma_dec_build(b: Seq<u8>, pos: int, bm: BuildModel)
    requires
        0 <= pos,
        pos + enc_build(bm).len() <= b.len(),
        b.subrange(pos, pos + enc_build(bm).len()) == enc_build(bm),
        match bm {
            BuildModel::Daily(s) => str_fits(s),
            BuildModel::Branched(s) => str_fits(s),
            _ => true,
        },
    ensures
        dec_build_at(b, pos) == Some((bm, pos + enc_build(bm).len())),
{
    let e = enc_build(bm);
    assert(b.subrange(pos, pos + e.len())[0] == b[pos]);
    match bm {
        BuildModel::Daily(s) => {
            assert(b[pos] == 0);
            assert forall|i: int| 0 <= i < enc_str(s).len() implies e[1 + i] == #[trigger]
            enc_str(s)[i] by {}
            lemma_chunk(b, pos, e, 1, enc_str(s));
            lemma_dec_str(b, pos + 1, s);
        },
        BuildModel::Branched(s) => {
            assert(b[pos] == 1);
            assert forall|i: int| 0 <= i < enc_str(s).len() implies e[1 + i] == #[trigger]
            enc_str(s)[i] by {}
            lemma_chunk(b, pos, e, 1, enc_str(s));
            lemma_dec_str(b, pos + 1, s);
        },
        BuildModel::Stable => {
            assert(b[pos] == 2);
        },
        BuildModel::Lts => {
            assert(b[pos] == 3);
        },
        BuildModel::Archived => {
            assert(b[pos] == 4);
        },
    }
}

/// An encoded status reads back as itself.
proof fn lemma_dec_status(b: Seq<u8>, pos: int, st: PackageStatus)
    requires
        0 <= pos,
        pos + enc_status(st).len() <= b.len(),
        b.subrange(pos, pos + enc_status(st).len()) == enc_status(st),
    ensures
        dec_status_at(b, pos) == Some((st, pos + enc_status(st).len())),
{
    assert(b.subrange(pos, pos + enc_status(st).len())[0] == b[pos]);
}

/// An encoded lifecycle state reads back as itself.
proof fn lemma_dec_state(b: Seq<u8>, pos: int, st: PackageState)
    requires
        0 <= pos,
        pos + enc_state(st).len() <= b.len(),
        b.subrange(pos, pos + enc_state(st).len()) == enc_state(st),
    ensures
        dec_state_at(b, pos) == Some((st, pos + enc_state(st).len())),
{
    let e = enc_state(st);
    assert(b.subrange(pos, pos + e.len())[0] == b[pos]);
    match st {
        PackageState::Downloading { progress } => {
            assert(b.subrange(pos, pos + e.len())[1] == b[pos + 1]);
            assert(b[pos + 1] == progress);
        },
        PackageState::Extracting { progress } => {
            assert(b.subrange(pos, pos + e.len())[1] == b[pos + 1]);
            assert(b[pos + 1] == progress);
        },
        _ => {},
    }
}

/// An encoded package reads back as itself.
#[verifier::rlimit(100)]
proof fn lemma_dec_pkg(b: Seq<u8>, pos: int, p: PkgModel)
    requires
        pkg_fits(p),
        0 <= pos,
        pos + enc_pkg(p).len() <= b.len(),
        b.subrange(pos, pos + enc_pkg(p).len()) == enc_pkg(p),
    ensures
        dec_pkg_at(b, pos) == Some((p, pos + enc_pkg(p).len())),
{
    let e = enc_pkg(p);
    let e1 = enc_str(p.name);
    let e2 = enc_str(p.version);
    let e3 = enc_u64(p.date);
    let e4 = enc_str(p.url);
    let e5 = enc_build(p.build);
    let e6 = enc_status(p.status);
    let e7 = enc_state(p.state);
    let o1: int = 0;
    let o2 = o1 + e1.len() as int;
    let o3 = o2 + e2.len() as int;
    let o4 = o3 + e3.len() as int;
    let o5 = o4 + e4.len() as int;
    let o6 = o5 + e5.len() as int;
    let o7 = o6 + e6.len() as int;
    assert forall|i: int| 0 <= i < e1.len() implies e[o1 + i] == #[trigger] e1[i] by {}
    assert forall|i: int| 0 <= i < e2.len() implies e[o2 + i] == #[trigger] e2[i] by {}
    assert forall|i: int| 0 <= i < e3.len() implies e[o3 + i] == #[trigger] e3[i] by {}
    assert forall|i: int| 0 <= i < e4.len() implies e[o4 + i] == #[trigger] e4[i] by {}
    assert forall|i: int| 0 <= i < e5.len() implies e[o5 + i] == #[trigger] e5[i] by {}
    assert forall|i: int| 0 <= i < e6.len() implies e[o6 + i] == #[trigger] e6[i] by {}
    assert forall|i: int| 0 <= i < e7.len() implies e[o7 + i] == #[trigger] e7[i] by {}
    lemma_chunk(b, pos, e, o1, e1);
    lemma_chunk(b, pos, e, o2, e2);
    lemma_chunk(b, pos, e, o3, e3);
    lemma_chunk(b, pos, e, o4, e4);
    lemma_chunk(b, pos, e, o5, e5);
    lemma_chunk(b, pos, e, o6, e6);
    lemma_chunk(b, pos, e, o7, e7);
    lemma_dec_str(b, pos + o1, p.name);
    lemma_dec_str(b, pos + o2, p.version);
    lemma_dec_u64(b, pos + o3, p.date);
    lemma_dec_str(b, pos + o4, p.url);
    lemma_dec_build(b, pos + o5, p.build);
    lemma_dec_status(b, pos + o6, p.status);
    lemma_dec_state(b, pos + o7, p.state);
}

/// An encoded run of packages reads back as itself.
proof fn lemma_dec_list(b: Seq<u8>, pos: int, ms: Seq<PkgModel>)
    requires
        forall|i: int| 0 <= i < ms.len() ==> #[trigger] pkg_fits(ms[i]),
        0 <= pos,
        pos + enc_list(ms).len() <= b.len(),
        b.subrange(pos, pos + enc_list(ms).len()) == enc_list(ms),
    ensures
        dec_list_at(b, pos, ms.len()) == Some((ms, pos + enc_list(ms).len())),
    decreases ms.len(),
{
    if ms.len() == 0 {
    } else {
        let e = enc_list(ms);
        let ep = enc_pkg(ms[0]);
        let er = enc_list(ms.drop_first());
        assert(e == ep + er);
        assert forall|i: int| 0 <= i < ep.len() implies e[0 + i] == #[trigger] ep[i] by {}
        assert forall|i: int| 0 <= i < er.len() implies e[ep.len() + i] == #[trigger] er[i] by {}
        lemma_chunk(b, pos, e, 0, ep);
        lemma_chunk(b, pos, e, ep.len() as int, er);
        assert(pkg_fits(ms[0]));
        lemma_dec_pkg(b, pos, ms[0]);
        assert forall|i: int| 0 <= i < ms.drop_first().len() implies #[trigger] pkg_fits(
            ms.drop_first()[i],
        ) by {
            assert(ms.drop_first()[i] == ms[i + 1]);
        }
        lemma_dec_list(b, pos + ep.len(), ms.drop_first());
        assert(seq![ms[0]] + ms.drop_first() =~= ms);
    }
}

/// A record written and read back holds the same packages: decoding is the
/// exact inverse of encoding.
pub proof fn lemma_record_roundtrip(ms: Seq<PkgModel>)
    requires
        record_fits(ms),
    ensures
        dec_record(enc_record(ms)) == Some(ms),
{
    let b = enc_record(ms);
    let el = enc_list(ms);
    let en = enc_u64(ms.len() as u64);
    assert(b == en + el);
    assert forall|i: int| 0 <= i < 8 implies b[i] == #[trigger] en[i] by {}
    assert forall|i: int| 0 <= i < el.len() implies b[8 + i] == #[trigger] el[i] by {}
    assert(b.subrange(0, b.len() as int) =~= b);
    lemma_chunk(b, 0, b, 0, en);
    lemma_chunk(b, 0, b, 8, el);
    lemma_dec_u64(b, 0, ms.len() as u64);
    assert(ms.len() as u64 as nat == ms.len());
    lemma_dec_list(b, 8, ms);
}

/// Relies on String::from_utf8: it returns the string holding the given
/// bytes exactly when they are valid UTF-8, and an error otherwise.
#[verifier::external_body]
fn string_from_utf8(bytes: Vec<u8>) -> (r: Option<String>)
    ensures
        match r {
            Some(s) => valid_utf8(bytes@) && encode_utf8(s@) == bytes@,
            None => !valid_utf8(bytes@),
        },
{
    match String::from_utf8(bytes) {
        Ok(s) => Some(s),
        Err(_) => None,
    }
}

/// Read a `u64` at `pos`.
fn decode_u64(bytes: &Vec<u8>, pos: usize) -> (r: Option<(u64, usize)>)
    ensures
        match r {
            Some((x, p)) => dec_u64_at(bytes@, pos as int) == Some((x, p as int)),
            None => dec_u64_at(bytes@, pos as int) is None,
        },
{
    let n = bytes.len();
    if pos > n || n - pos < 8 {
        return None;
    }
    let x = (bytes[pos] as u64) | ((bytes[pos + 1] as u64) << 8) | ((bytes[pos + 2] as u64)
        << 16) | ((bytes[pos + 3] as u64) << 24) | ((bytes[pos + 4] as u64) << 32) | ((bytes[pos
        + 5] as u64) << 40) | ((bytes[pos + 6] as u64) << 48) | ((bytes[pos + 7] as u64) << 56);
    Some((x, pos + 8))
}

/// Read a length-prefixed UTF-8 string at `pos`.
fn decode_str(bytes: &Vec<u8>, pos: usize) -> (r: Option<(String, usize)>)
    ensures
        match r {
            Some((s, p)) => dec_str_at(bytes@, pos as int) == Some((s@, p as int)) && p
                <= bytes@.len(),
            None => dec_str_at(bytes@, pos as int) is None,
        },
{
    match decode_u64(bytes, pos) {
        Some((n64, p)) => {
            if n64 > (bytes.len() - p) as u64 {
                return None;
            }
            let n = n64 as usize;
            let mut sub: Vec<u8> = Vec::new();
            let mut i: usize = 0;
            proof {
                assert(bytes@.subrange(p as int, p as int) =~= Seq::empty());
            }
            while i < n
                invariant
                    p + n <= bytes@.len(),
                    bytes@.len() <= usize::MAX,
                    i <= n,
                    sub@ =~= bytes@.subrange(p as int, p + i),
                decreases n - i,
            {
                sub.push(bytes[p + i]);
                proof {
                    assert(bytes@.subrange(p as int, p + i).push(bytes@[p + i]) =~= bytes@
                        .subrange(p as int, p + i + 1));
                }
                i += 1;
            }
            match string_from_utf8(sub) {
                Some(s) => {
                    proof {
                        encode_utf8_decode_utf8(s@);
                    }
                    Some((s, p + n))
                },
                None => None,
            }
        },
        None => None,
    }
}

/// Read a build line at `pos`.
fn decode_build(bytes: &Vec<u8>, pos: usize) -> (r: Option<(crate::package::Build, usize)>)
    ensures
        match r {
            Some((b, p)) => dec_build_at(bytes@, pos as int) == Some((b@, p as int)) && p
                <= bytes@.len(),
            None => dec_build_at(bytes@, pos as int) is None,
        },
{
    if pos >= bytes.len() {
        return None;
    }
    let tag = bytes[pos];
    if tag == 0 {
        match decode_str(bytes, pos + 1) {
            Some((s, p)) => Some((crate::package::Build::Daily(s), p)),
            None => None,
        }
    } else if tag == 1 {
        match decode_str(bytes, pos + 1) {
            Some((s, p)) => Some((crate::package::Build::Branched(s), p)),
            None => None,
        }
    } else if tag == 2 {
        Some((crate::package::Build::Stable, pos + 1))
    } else if tag == 3 {
        Some((crate::package::Build::Lts, pos + 1))
    } else if tag == 4 {
        Some((crate::package::Build::Archived, pos + 1))
    } else {
        None
    }
}

/// Read a status tag at `pos`.
fn decode_status(bytes: &Vec<u8>, pos: usize) -> (r: Option<(PackageStatus, usize)>)
    ensures
        match r {
            Some((st, p)) => dec_status_at(bytes@, pos as int) == Some((st, p as int)) && p
                <= bytes@.len(),
            None => dec_status_at(bytes@, pos as int) is None,
        },
{
    if pos >= bytes.len() {
        return None;
    }
    let tag = bytes[pos];
    if tag == 0 {
        Some((PackageStatus::Update, pos + 1))
    } else if tag == 1 {
        Some((PackageStatus::New, pos + 1))
    } else if tag == 2 {
        Some((PackageStatus::Old, pos + 1))
    } else {
        None
    }
}

/// Read a lifecycle state at `pos`.
fn decode_state(bytes: &Vec<u8>, pos: usize) -> (r: Option<(PackageState, usize)>)
    ensures
        match r {
            Some((st, p)) => dec_state_at(bytes@, pos as int) == Some((st, p as int)) && p
                <= bytes@.len(),
            None => dec_state_at(bytes@, pos as int) is None,
        },
{
    if pos >= bytes.len() {
        return None;
    }
    let tag = bytes[pos];
    if tag == 0 {
        Some((PackageState::Fetched, pos + 1))
    } else if tag == 1 && pos + 1 < bytes.len() {
        Some((PackageState::Downloading { progress: bytes[pos + 1] }, pos + 2))
    } else if tag == 2 && pos + 1 < bytes.len() {
        Some((PackageState::Extracting { progress: bytes[pos + 1] }, pos + 2))
    } else if tag == 3 {
        Some((PackageState::Installed, pos + 1))
    } else if tag == 4 {
        Some((PackageState::Errored, pos + 1))
    } else {
        None
    }
}

/// Read one package at `pos`.
fn decode_pkg(bytes: &Vec<u8>, pos: usize) -> (r: Option<(Package, usize)>)
    ensures
        match r {
            Some((pkg, p)) => dec_pkg_at(bytes@, pos as int) == Some((pkg@, p as int)) && p
                <= bytes@.len(),
            None => dec_pkg_at(bytes@, pos as int) is None,
        },
{
    let (name, p1) = match decode_str(bytes, pos) {
        Some(x) => x,
        None => {
            return None;
        },
    };
    let (version, p2) = match decode_str(bytes, p1) {
        Some(x) => x,
        None => {
            return None;
        },
    };
    let (date, p3) = match decode_u64(bytes, p2) {
        Some(x) => x,
        None => {
            return None;
        },
    };
    let (url, p4) = match decode_str(bytes, p3) {
        Some(x) => x,
        None => {
            return None;
        },
    };
    let (build, p5) = match decode_build(bytes, p4) {
        Some(x) => x,
        None => {
            return None;
        },
    };
    let (status, p6) = match decode_status(bytes, p5) {
        Some(x) => x,
        None => {
            return None;
        },
    };
    let (state, p7) = match decode_state(bytes, p6) {
        Some(x) => x,
        None => {
            return None;
        },
    };
    Some(
        (
            Package {
                name: name,
                version: version,
                date: date,
                url: url,
                build: build,
                status: status,
                state: state,
            },
            p7,
        ),
    )
}

/// Decode a whole channel record. `None` means the bytes are not a record
/// this format ever writes.
pub fn decode_record(bytes: &Vec<u8>) -> (r: Option<Vec<Package>>)
    ensures
        match r {
            Some(v) => dec_record(bytes@) == Some(models(v@)),
            None => dec_record(bytes@) is None,
        },
{
    let (count, start) = match decode_u64(bytes, 0) {
        Some(x) => x,
        None => {
            return None;
        },
    };
    let mut out: Vec<Package> = Vec::new();
    let mut pos = start;
    let mut k: u64 = 0;
    proof {
        assert(models(out@) =~= Seq::<PkgModel>::empty());
    }
    while k < count
        invariant
            k <= count,
            pos <= bytes@.len(),
            dec_u64_at(bytes@, 0) == Some((count, start as int)),
            dec_list_at(bytes@, start as int, count as nat) == (match dec_list_at(
                bytes@,
                pos as int,
                (count - k) as nat,
            ) {
                Some((rest, pe)) => Some((models(out@) + rest, pe)),
                None => None::<(Seq<PkgModel>, int)>,
            }),
        decreases count - k,
    {
        let ghost pre = models(out@);
        match decode_pkg(bytes, pos) {
            Some((pkg, p2)) => {
                out.push(pkg);
                proof {
                    assert(models(out@) =~= pre.push(pkg@));
                    assert forall|rest: Seq<PkgModel>|
                        pre + (seq![pkg@] + rest) =~= #[trigger] (pre.push(pkg@) + rest) by {}
                }
                pos = p2;
                k = k + 1;
            },
            None => {
                proof {
                    assert(dec_list_at(bytes@, pos as int, (count - k) as nat) is None);
                }
                return None;
            },
        }
    }
    proof {
        assert(dec_list_at(bytes@, pos as int, 0) == Some((Seq::<PkgModel>::empty(), pos as int)));
        assert(models(out@) + Seq::<PkgModel>::empty() =~= models(out@));
    }
    if pos == bytes.len() {
        Some(out)
    } else {
        None
    }
}

} // verus!
