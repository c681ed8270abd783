use vstd::prelude::*;
use vstd::slice::slice_subrange;
use vstd::utf8::valid_utf8;

use crate::bytes::{
    append_token, be_u64, bytes_equal, law_be_u64_round_trip, law_u64_of_be_round_trip,
    lemma_consume_part, lemma_next_part, lemma_starts_with_front, lemma_starts_with_trans, push_all, push_be_u64, read_be_u64, starts_with, text_bytes,
    token, u64_of_be,
};
use crate::digest::{content_digest, sha256, utf8_text};
use crate::error::{ApplicationError, ApplicationErrorCategory, ApplicationResult, failure, validation};
use crate::primitives::{
    LineageRef, OwnerRef, VersionRef, lemma_version_ref_order, version_ref_less, version_ref_lt,
};

verus! {

/// The first bytes of every canonical Universe members manifest.
pub open spec fn universe_prefix() -> Seq<u8> {
    seq![
        102u8, 105, 99, 97, 110, 116, 45, 117, 110, 105, 118, 101, 114, 115, 101, 45, 109, 101, 109,
        98, 101, 114, 115, 45, 109, 97, 110, 105, 102, 101, 115, 116, 47, 118, 49, 0,
    ]
}

fn push_universe_prefix(bytes: &mut Vec<u8>)
    ensures
        final(bytes)@ == old(bytes)@ + universe_prefix(),
{
    let prefix: Vec<u8> = vec![
        102u8, 105, 99, 97, 110, 116, 45, 117, 110, 105, 118, 101, 114, 115, 101, 45, 109, 101, 109,
        98, 101, 114, 115, 45, 109, 97, 110, 105, 102, 101, 115, 116, 47, 118, 49, 0,
    ];
    assert(prefix@ =~= universe_prefix());
    push_all(bytes, prefix.as_slice());
}

/// The two tokens of one member: its identifier and its big-endian version.
pub open spec fn member_tokens(members: Seq<(Seq<char>, u64)>) -> Seq<u8>
    decreases members.len(),
{
    if members.len() == 0 {
        Seq::empty()
    } else {
        member_tokens(members.drop_last()) + token(text_bytes(members.last().0)) + token(
            be_u64(members.last().1),
        )
    }
}

/// The view of a lineage reference inside a manifest: identifier, version (zero when
/// unversioned) and content hash (empty when absent).
pub open spec fn lineage_fields(reference: LineageRef) -> (Seq<char>, u64, Seq<u8>) {
    (
        reference.object_id@,
        match reference.version {
            Some(v) => v,
            None => 0,
        },
        match reference.content_hash {
            Some(h) => h@,
            None => Seq::empty(),
        },
    )
}

/// The three tokens of each lineage reference.
pub open spec fn lineage_tokens(lineage: Seq<(Seq<char>, u64, Seq<u8>)>) -> Seq<u8>
    decreases lineage.len(),
{
    if lineage.len() == 0 {
        Seq::empty()
    } else {
        lineage_tokens(lineage.drop_last()) + token(text_bytes(lineage.last().0)) + token(
            be_u64(lineage.last().1),
        ) + token(lineage.last().2)
    }
}

/// The canonical Universe members manifest.
pub open spec fn universe_manifest(
    snapshot_id: Seq<char>,
    owner: (Seq<char>, Seq<char>),
    filter_digest: Seq<u8>,
    actor: Seq<u8>,
    members: Seq<(Seq<char>, u64)>,
    lineage: Seq<(Seq<char>, u64, Seq<u8>)>,
) -> Seq<u8> {
    universe_prefix() + token(text_bytes(snapshot_id)) + token(text_bytes(owner.0)) + token(
        text_bytes(owner.1),
    ) + token(filter_digest) + token(actor) + member_tokens(members) + lineage_tokens(lineage)
}

pub open spec fn member_views(members: Seq<VersionRef>) -> Seq<(Seq<char>, u64)> {
    members.map_values(|m: VersionRef| m@)
}

pub open spec fn lineage_views(lineage: Seq<LineageRef>) -> Seq<(Seq<char>, u64, Seq<u8>)> {
    lineage.map_values(|l: LineageRef| lineage_fields(l))
}

/// Appends the member and lineage tokens.
fn append_members_and_lineage(bytes: &mut Vec<u8>, members: &[VersionRef], lineage: &[LineageRef])
    ensures
        final(bytes)@ == old(bytes)@ + member_tokens(member_views(members@)) + lineage_tokens(
            lineage_views(lineage@),
        ),
{
    let ghost start = bytes@;
    let mut i: usize = 0;
    while i < members.len()
        invariant
            i <= members@.len(),
            bytes@ == start + member_tokens(member_views(members@.subrange(0, i as int))),
        decreases members.len() - i,
    {
        proof {
            let next = members@.subrange(0, i + 1);
            assert(member_views(next).drop_last() =~= member_views(members@.subrange(0, i as int)));
            assert(member_views(next).last() == members@[i as int]@);
        }
        append_token(bytes, members[i].id.as_str().as_bytes());
        let mut version: Vec<u8> = Vec::new();
        crate::bytes::push_be_u64(&mut version, members[i].version);
        append_token(bytes, version.as_slice());
        i = i + 1;
    }
    proof {
        assert(members@.subrange(0, members@.len() as int) =~= members@);
    }
    let ghost middle = bytes@;
    let mut j: usize = 0;
    while j < lineage.len()
        invariant
            j <= lineage@.len(),
            bytes@ == middle + lineage_tokens(lineage_views(lineage@.subrange(0, j as int))),
        decreases lineage.len() - j,
    {
        proof {
            let next = lineage@.subrange(0, j + 1);
            assert(lineage_views(next).drop_last() =~= lineage_views(lineage@.subrange(0, j as int)));
            assert(lineage_views(next).last() == lineage_fields(lineage@[j as int]));
        }
        let reference = &lineage[j];
        append_token(bytes, reference.object_id.as_str().as_bytes());
        let version_value = match reference.version {
            Some(v) => v,
            None => 0,
        };
        let mut version: Vec<u8> = Vec::new();
        crate::bytes::push_be_u64(&mut version, version_value);
        append_token(bytes, version.as_slice());
        match &reference.content_hash {
            Some(hash) => append_token(bytes, hash.as_slice()),
            None => {
                let empty: Vec<u8> = Vec::new();
                assert(empty@ =~= Seq::<u8>::empty());
                append_token(bytes, empty.as_slice());
            },
        }
        j = j + 1;
    }
    proof {
        assert(lineage@.subrange(0, lineage@.len() as int) =~= lineage@);
    }
}


/// Reads the length-prefixed field at `cursor` and moves the cursor past it.
pub fn manifest_token<'a>(manifest: &'a [u8], cursor: &mut usize) -> (result: ApplicationResult<
    &'a [u8],
>)
    requires
        *old(cursor) <= manifest@.len(),
    ensures
        result is Ok <==> *old(cursor) + 8 <= manifest@.len() && *old(cursor) + 8 + u64_of_be(
            manifest@.subrange(*old(cursor) as int, *old(cursor) + 8),
        ) <= manifest@.len(),
        result matches Ok(value) ==> manifest@.subrange(*old(cursor) as int, *final(cursor) as int)
            == token(value@) && *final(cursor) == *old(cursor) + token(value@).len(),
        result is Err ==> *final(cursor) == *old(cursor),
        *final(cursor) <= manifest@.len(),
        result matches Err(e) ==> e == failure(ApplicationErrorCategory::ValidationFailed),
{
    let start = *cursor;
    if manifest.len() - start < 8 {
        return Err(validation());
    }
    let length_end = start + 8;
    let length = read_be_u64(manifest, start);
    if length > (manifest.len() - length_end) as u64 {
        return Err(validation());
    }
    let value_end = length_end + length as usize;
    let value = slice_subrange(manifest, length_end, value_end);
    proof {
        let b = manifest@.subrange(start as int, length_end as int);
        law_u64_of_be_round_trip(b);
        assert(value@.len() as u64 == length);
        assert(manifest@.subrange(start as int, value_end as int) =~= b + value@);
    }
    *cursor = value_end;
    Ok(value)
}

/// Reads the field at `cursor` and fails unless it holds exactly `expected`.
pub fn expect_manifest_token(manifest: &[u8], cursor: &mut usize, expected: &[u8]) -> (result:
    ApplicationResult<()>)
    requires
        *old(cursor) <= manifest@.len(),
    ensures
        result is Ok <==> starts_with(
            manifest@.subrange(*old(cursor) as int, manifest@.len() as int),
            token(expected@),
        ),
        result is Ok ==> *final(cursor) == *old(cursor) + token(expected@).len(),
        *final(cursor) <= manifest@.len(),
        result matches Err(e) ==> e == failure(ApplicationErrorCategory::ValidationFailed),
{
    let ghost start = *cursor;
    let ghost rest = manifest@.subrange(start as int, manifest@.len() as int);
    let ghost wanted = token(expected@);
    let expected_len = expected.len() as u64;
    proof {
        law_be_u64_round_trip(expected_len);
        if starts_with(rest, wanted) {
            assert(manifest@.subrange(start as int, start + 8) =~= rest.subrange(0, 8));
            assert(wanted.subrange(0, 8) =~= be_u64(expected_len));
            assert(u64_of_be(manifest@.subrange(start as int, start + 8)) == expected_len);
        }
    }
    match manifest_token(manifest, cursor) {
        Ok(value) => {
            if bytes_equal(value, expected) {
                proof {
                    assert(value@ == expected@);
                    assert(manifest@.subrange(start as int, *cursor as int) == wanted);
                    assert(rest.subrange(0, wanted.len() as int) =~= manifest@.subrange(
                        start as int,
                        start + wanted.len(),
                    ));
                }
                Ok(())
            } else {
                proof {
                    if starts_with(rest, wanted) {
                        let got = token(value@);
                        assert(manifest@.subrange(start as int, start + 8) =~= got.subrange(0, 8));
                        assert(got.subrange(0, 8) =~= be_u64(value@.len() as u64));
                        law_be_u64_round_trip(value.len() as u64);
                        assert(value@.len() == expected@.len());
                        assert(value@ =~= got.subrange(8, got.len() as int));
                        assert(got =~= rest.subrange(0, got.len() as int));
                        assert(expected@ =~= wanted.subrange(8, wanted.len() as int));
                    }
                }
                Err(validation())
            }
        },
        Err(e) => Err(e),
    }
}


proof fn lemma_member_tokens_prefix(members: Seq<(Seq<char>, u64)>, i: int)
    requires
        0 <= i <= members.len(),
    ensures
        starts_with(member_tokens(members), member_tokens(members.subrange(0, i))),
    decreases members.len(),
{
    if i == members.len() {
        assert(members.subrange(0, i) =~= members);
        assert(member_tokens(members).subrange(0, member_tokens(members).len() as int) =~= member_tokens(
            members,
        ));
    } else {
        let prefix = members.drop_last();
        lemma_member_tokens_prefix(prefix, i);
        assert(prefix.subrange(0, i) =~= members.subrange(0, i));
        let part = member_tokens(members.subrange(0, i));
        let whole = member_tokens(members);
        assert(whole.subrange(0, part.len() as int) =~= member_tokens(prefix).subrange(
            0,
            part.len() as int,
        ));
    }
}

proof fn lemma_lineage_tokens_prefix(lineage: Seq<(Seq<char>, u64, Seq<u8>)>, i: int)
    requires
        0 <= i <= lineage.len(),
    ensures
        starts_with(lineage_tokens(lineage), lineage_tokens(lineage.subrange(0, i))),
    decreases lineage.len(),
{
    if i == lineage.len() {
        assert(lineage.subrange(0, i) =~= lineage);
        assert(lineage_tokens(lineage).subrange(0, lineage_tokens(lineage).len() as int)
            =~= lineage_tokens(lineage));
    } else {
        let prefix = lineage.drop_last();
        lemma_lineage_tokens_prefix(prefix, i);
        assert(prefix.subrange(0, i) =~= lineage.subrange(0, i));
        let part = lineage_tokens(lineage.subrange(0, i));
        let whole = lineage_tokens(lineage);
        assert(whole.subrange(0, part.len() as int) =~= lineage_tokens(prefix).subrange(
            0,
            part.len() as int,
        ));
    }
}

/// The bytes of a canonical ULID: 26 Crockford base-32 digits whose first digit is at most 7.
pub open spec fn is_ulid(text: Seq<u8>) -> bool {
    &&& text.len() == 26
    &&& text[0] <= 55
    &&& forall|i: int| 0 <= i < 26 ==> is_crockford_digit(#[trigger] text[i])
}

/// A digit of Crockford's base-32 alphabet.
pub open spec fn is_crockford_digit(byte: u8) -> bool {
    (48 <= byte <= 57) || (65 <= byte <= 90 && byte != 73 && byte != 76 && byte != 79 && byte != 85)
}

/// Whether the bytes spell a canonical ULID.
pub fn is_ulid_bytes(text: &[u8]) -> (valid: bool)
    ensures
        valid == is_ulid(text@),
{
    if text.len() != 26 || text[0] > 55 {
        return false;
    }
    let mut i: usize = 0;
    while i < 26
        invariant
            text@.len() == 26,
            i <= 26,
            forall|k: int| 0 <= k < i ==> is_crockford_digit(#[trigger] text@[k]),
        decreases 26 - i,
    {
        let byte = text[i];
        if !((48 <= byte && byte <= 57) || (65 <= byte && byte <= 90 && byte != 73 && byte != 76
            && byte != 79 && byte != 85)) {
            return false;
        }
        i = i + 1;
    }
    true
}

/// A published Universe snapshot: its exact members, filter, lineage and content identity.
#[derive(Debug)]
pub struct UniverseSnapshot {
    pub id: String,
    pub owner: OwnerRef,
    pub instrument_versions: Vec<VersionRef>,
    pub filter_digest: Vec<u8>,
    pub content_hash: Vec<u8>,
    pub lineage: Vec<LineageRef>,
}

/// The canonical manifest of a snapshot for one actor.
pub open spec fn snapshot_manifest(snapshot: UniverseSnapshot, actor: Seq<u8>) -> Seq<u8> {
    universe_manifest(
        snapshot.id@,
        (snapshot.owner.tenant_id@, snapshot.owner.owner_id@),
        snapshot.filter_digest@,
        actor,
        member_views(snapshot.instrument_versions@),
        lineage_views(snapshot.lineage@),
    )
}

/// The manifest is the canonical manifest of the snapshot for some valid actor ULID.
pub open spec fn manifest_binds_actor(snapshot: UniverseSnapshot, manifest: Seq<u8>) -> bool {
    exists|actor: Seq<u8>|
        valid_utf8(actor) && is_ulid(actor) && #[trigger] snapshot_manifest(snapshot, actor)
            == manifest
}

/// The bytes from `cursor` to the end.
pub open spec fn rest_of(manifest: Seq<u8>, cursor: int) -> Seq<u8> {
    manifest.subrange(cursor, manifest.len() as int)
}

proof fn lemma_rest_step(manifest: Seq<u8>, start: int, done: Seq<u8>, next: Seq<u8>)
    requires
        0 <= start <= manifest.len(),
        start + done.len() <= manifest.len(),
        manifest.subrange(start, start + done.len()) == done,
    ensures
        starts_with(rest_of(manifest, start), done + next) ==> starts_with(
            rest_of(manifest, start + done.len()),
            next,
        ),
        starts_with(rest_of(manifest, start + done.len()), next) ==> manifest.subrange(
            start,
            start + done.len() + next.len(),
        ) == done + next && starts_with(rest_of(manifest, start), done + next),
{
    let r = rest_of(manifest, start);
    assert(r.subrange(0, done.len() as int) =~= done);
    if starts_with(r, done + next) {
        lemma_next_part(r, done, next);
        assert(r.subrange(done.len() as int, r.len() as int) =~= rest_of(manifest, start + done.len()));
    }
    if starts_with(rest_of(manifest, start + done.len()), next) {
        assert(manifest.subrange(start, start + done.len() + next.len()) =~= done + next);
        assert(r.subrange(0, (done + next).len() as int) =~= done + next);
    }
}

/// Expects the tokens of every member, in order.
fn expect_member_tokens(manifest: &[u8], cursor: &mut usize, members: &[VersionRef]) -> (result:
    ApplicationResult<()>)
    requires
        *old(cursor) <= manifest@.len(),
    ensures
        result is Ok <==> starts_with(
            rest_of(manifest@, *old(cursor) as int),
            member_tokens(member_views(members@)),
        ),
        result is Ok ==> *final(cursor) == *old(cursor) + member_tokens(member_views(members@)).len(),
        *final(cursor) <= manifest@.len(),
        result matches Err(e) ==> e == failure(ApplicationErrorCategory::ValidationFailed),
{
    let ghost m = manifest@;
    let ghost start = *cursor as int;
    let ghost all = member_views(members@);
    let mut i: usize = 0;
    proof {
        assert(all.subrange(0, 0) =~= Seq::<(Seq<char>, u64)>::empty());
        assert(m.subrange(start, start) =~= Seq::<u8>::empty());
    }
    while i < members.len()
        invariant
            m == manifest@,
            all == member_views(members@),
            start == *old(cursor),
            0 <= start <= *cursor <= m.len(),
            i <= members@.len(),
            *cursor == start + member_tokens(all.subrange(0, i as int)).len(),
            m.subrange(start, *cursor as int) == member_tokens(all.subrange(0, i as int)),
        decreases members.len() - i,
    {
        let member = &members[i];
        let ghost done = member_tokens(all.subrange(0, i as int));
        let ghost tid = token(text_bytes(member.id@));
        let mut version: Vec<u8> = Vec::new();
        push_be_u64(&mut version, member.version);
        let ghost tv = token(version@);
        proof {
            assert(version@ =~= be_u64(member.version));
            let next = all.subrange(0, i + 1);
            assert(next.drop_last() =~= all.subrange(0, i as int));
            assert(next.last() == member@);
            assert(member_tokens(next) == done + tid + tv);
            lemma_member_tokens_prefix(all, i + 1);
            if starts_with(rest_of(m, start), member_tokens(all)) {
                let r = rest_of(m, start);
                lemma_starts_with_trans(r, member_tokens(all), member_tokens(next));
                lemma_starts_with_front(done + tid, tv);
                lemma_starts_with_trans(r, done + tid + tv, done + tid);
            }
            lemma_rest_step(m, start, done, tid);
        }
        let ghost before = *cursor;
        if let Err(e) = expect_manifest_token(manifest, cursor, member.id.as_str().as_bytes()) {
            proof {
                assert(!starts_with(rest_of(m, before as int), tid));
                assert(before == start + done.len());
                assert(!starts_with(rest_of(m, start), member_tokens(all)));
            }
            return Err(e);
        }
        proof {
            lemma_rest_step(m, start, done, tid);
            lemma_rest_step(m, start, done + tid, tv);
            if starts_with(rest_of(m, start), member_tokens(all)) {
                let r = rest_of(m, start);
                lemma_starts_with_trans(r, member_tokens(all), member_tokens(all.subrange(0, i + 1)));
            }
        }
        if let Err(e) = expect_manifest_token(manifest, cursor, version.as_slice()) {
            return Err(e);
        }
        proof {
            lemma_rest_step(m, start, done + tid, tv);
        }
        i = i + 1;
    }
    proof {
        assert(all.subrange(0, all.len() as int) =~= all);
        assert(rest_of(m, start).subrange(0, member_tokens(all).len() as int) =~= member_tokens(all));
    }
    Ok(())
}


/// Expects the tokens of every lineage reference, in order.
fn expect_lineage_tokens(manifest: &[u8], cursor: &mut usize, lineage: &[LineageRef]) -> (result:
    ApplicationResult<()>)
    requires
        *old(cursor) <= manifest@.len(),
    ensures
        result is Ok <==> starts_with(
            rest_of(manifest@, *old(cursor) as int),
            lineage_tokens(lineage_views(lineage@)),
        ),
        result is Ok ==> *final(cursor) == *old(cursor) + lineage_tokens(lineage_views(lineage@)).len(),
        *final(cursor) <= manifest@.len(),
        result matches Err(e) ==> e == failure(ApplicationErrorCategory::ValidationFailed),
{
    let ghost m = manifest@;
    let ghost start = *cursor as int;
    let ghost all = lineage_views(lineage@);
    let mut j: usize = 0;
    proof {
        assert(all.subrange(0, 0) =~= Seq::<(Seq<char>, u64, Seq<u8>)>::empty());
        assert(m.subrange(start, start) =~= Seq::<u8>::empty());
    }
    while j < lineage.len()
        invariant
            m == manifest@,
            all == lineage_views(lineage@),
            start == *old(cursor),
            0 <= start <= *cursor <= m.len(),
            j <= lineage@.len(),
            *cursor == start + lineage_tokens(all.subrange(0, j as int)).len(),
            m.subrange(start, *cursor as int) == lineage_tokens(all.subrange(0, j as int)),
        decreases lineage.len() - j,
    {
        let reference = &lineage[j];
        let ghost done = lineage_tokens(all.subrange(0, j as int));
        let ghost fields = lineage_fields(*reference);
        let ghost tid = token(text_bytes(fields.0));
        let version_value = match reference.version {
            Some(v) => v,
            None => 0,
        };
        let mut version: Vec<u8> = Vec::new();
        push_be_u64(&mut version, version_value);
        let ghost tv = token(version@);
        let empty: Vec<u8> = Vec::new();
        let hash: &[u8] = match &reference.content_hash {
            Some(h) => h.as_slice(),
            None => empty.as_slice(),
        };
        let ghost th = token(hash@);
        let ghost next = all.subrange(0, j + 1);
        proof {
            assert(version@ =~= be_u64(fields.1));
            assert(hash@ =~= fields.2);
            assert(next.drop_last() =~= all.subrange(0, j as int));
            assert(next.last() == fields);
            assert(lineage_tokens(next) == done + tid + tv + th);
            lemma_lineage_tokens_prefix(all, j + 1);
            if starts_with(rest_of(m, start), lineage_tokens(all)) {
                let r = rest_of(m, start);
                lemma_starts_with_trans(r, lineage_tokens(all), lineage_tokens(next));
                lemma_starts_with_front(done + tid + tv, th);
                lemma_starts_with_trans(r, done + tid + tv + th, done + tid + tv);
                lemma_starts_with_front(done + tid, tv);
                lemma_starts_with_trans(r, done + tid + tv, done + tid);
            }
            lemma_rest_step(m, start, done, tid);
        }
        let ghost before = *cursor;
        if let Err(e) = expect_manifest_token(
            manifest,
            cursor,
            reference.object_id.as_str().as_bytes(),
        ) {
            proof {
                assert(!starts_with(rest_of(m, start), lineage_tokens(all)));
            }
            return Err(e);
        }
        proof {
            lemma_rest_step(m, start, done, tid);
            lemma_rest_step(m, start, done + tid, tv);
        }
        if let Err(e) = expect_manifest_token(manifest, cursor, version.as_slice()) {
            proof {
                assert(!starts_with(rest_of(m, start), lineage_tokens(all)));
            }
            return Err(e);
        }
        proof {
            lemma_rest_step(m, start, done + tid, tv);
            lemma_rest_step(m, start, done + tid + tv, th);
        }
        if let Err(e) = expect_manifest_token(manifest, cursor, hash) {
            proof {
                assert(!starts_with(rest_of(m, start), lineage_tokens(all)));
            }
            return Err(e);
        }
        proof {
            lemma_rest_step(m, start, done + tid + tv, th);
        }
        j = j + 1;
    }
    proof {
        assert(all.subrange(0, all.len() as int) =~= all);
        assert(rest_of(m, start).subrange(0, lineage_tokens(all).len() as int) =~= lineage_tokens(
            all,
        ));
    }
    Ok(())
}


/// The fixed head of a snapshot's manifest: the prefix and the identifier, owner and filter
/// tokens.
pub open spec fn snapshot_head(snapshot: UniverseSnapshot) -> Seq<u8> {
    universe_prefix() + token(text_bytes(snapshot.id@)) + token(text_bytes(snapshot.owner.tenant_id@))
        + token(text_bytes(snapshot.owner.owner_id@)) + token(snapshot.filter_digest@)
}

proof fn lemma_manifest_layout(snapshot: UniverseSnapshot, actor: Seq<u8>)
    ensures
        snapshot_manifest(snapshot, actor) == snapshot_head(snapshot) + token(actor) + member_tokens(
            member_views(snapshot.instrument_versions@),
        ) + lineage_tokens(lineage_views(snapshot.lineage@)),
        starts_with(snapshot_manifest(snapshot, actor), snapshot_head(snapshot)),
        starts_with(snapshot_manifest(snapshot, actor), snapshot_head(snapshot) + token(actor)),
        rest_of(
            snapshot_manifest(snapshot, actor),
            (snapshot_head(snapshot) + token(actor)).len() as int,
        ) == member_tokens(member_views(snapshot.instrument_versions@)) + lineage_tokens(
            lineage_views(snapshot.lineage@),
        ),
{
    let h = snapshot_head(snapshot);
    let ta = token(actor);
    let mt = member_tokens(member_views(snapshot.instrument_versions@));
    let lt = lineage_tokens(lineage_views(snapshot.lineage@));
    let whole = snapshot_manifest(snapshot, actor);
    assert(whole =~= h + ta + mt + lt);
    assert(whole =~= h + (ta + mt + lt));
    lemma_starts_with_front(h, ta + mt + lt);
    assert(whole =~= (h + ta) + (mt + lt));
    lemma_starts_with_front(h + ta, mt + lt);
    assert(rest_of(whole, (h + ta).len() as int) =~= mt + lt);
}

/// Two tokens read at the same position are the same token.
proof fn lemma_token_at(manifest: Seq<u8>, at: int, read: Seq<u8>, expected: Seq<u8>)
    requires
        0 <= at <= manifest.len(),
        read.len() <= u64::MAX,
        expected.len() <= u64::MAX,
        starts_with(rest_of(manifest, at), token(read)),
        starts_with(rest_of(manifest, at), token(expected)),
    ensures
        read == expected,
{
    let rest = rest_of(manifest, at);
    law_be_u64_round_trip(read.len() as u64);
    law_be_u64_round_trip(expected.len() as u64);
    assert(rest.subrange(0, 8) =~= token(read).subrange(0, 8));
    assert(rest.subrange(0, 8) =~= token(expected).subrange(0, 8));
    assert(token(read).subrange(0, 8) =~= be_u64(read.len() as u64));
    assert(token(expected).subrange(0, 8) =~= be_u64(expected.len() as u64));
    assert(read.len() == expected.len());
    assert(read =~= token(read).subrange(8, token(read).len() as int));
    assert(expected =~= token(expected).subrange(8, token(expected).len() as int));
    assert(token(read) =~= rest.subrange(0, token(read).len() as int));
    assert(token(expected) =~= rest.subrange(0, token(expected).len() as int));
}

/// A token that the rest of the manifest starts with can be read.
proof fn lemma_token_readable(manifest: Seq<u8>, at: int, expected: Seq<u8>)
    requires
        0 <= at <= manifest.len(),
        expected.len() <= u64::MAX,
        starts_with(rest_of(manifest, at), token(expected)),
    ensures
        at + 8 <= manifest.len(),
        at + 8 + u64_of_be(manifest.subrange(at, at + 8)) <= manifest.len(),
{
    let rest = rest_of(manifest, at);
    law_be_u64_round_trip(expected.len() as u64);
    assert(manifest.subrange(at, at + 8) =~= rest.subrange(0, 8));
    assert(rest.subrange(0, 8) =~= token(expected).subrange(0, 8));
    assert(token(expected).subrange(0, 8) =~= be_u64(expected.len() as u64));
}

/// Expects the manifest prefix and the identifier, owner and filter tokens.
fn expect_manifest_head(manifest: &[u8], snapshot: &UniverseSnapshot) -> (result: ApplicationResult<
    usize,
>)
    ensures
        result is Ok <==> starts_with(manifest@, snapshot_head(*snapshot)),
        result matches Ok(cursor) ==> cursor == snapshot_head(*snapshot).len() && cursor
            <= manifest@.len(),
        result matches Err(e) ==> e == failure(ApplicationErrorCategory::ValidationFailed),
{
    let ghost m = manifest@;
    let ghost h0 = universe_prefix();
    let ghost t1 = token(text_bytes(snapshot.id@));
    let ghost t2 = token(text_bytes(snapshot.owner.tenant_id@));
    let ghost t3 = token(text_bytes(snapshot.owner.owner_id@));
    let ghost t4 = token(snapshot.filter_digest@);
    let ghost h = snapshot_head(*snapshot);
    proof {
        assert(rest_of(m, 0) =~= m);
        if starts_with(m, h) {
            lemma_starts_with_front(h0 + t1 + t2 + t3, t4);
            lemma_starts_with_trans(m, h, h0 + t1 + t2 + t3);
            lemma_starts_with_front(h0 + t1 + t2, t3);
            lemma_starts_with_trans(m, h0 + t1 + t2 + t3, h0 + t1 + t2);
            lemma_starts_with_front(h0 + t1, t2);
            lemma_starts_with_trans(m, h0 + t1 + t2, h0 + t1);
            lemma_starts_with_front(h0, t1);
            lemma_starts_with_trans(m, h0 + t1, h0);
        }
    }
    let prefix: Vec<u8> = vec![
        102u8, 105, 99, 97, 110, 116, 45, 117, 110, 105, 118, 101, 114, 115, 101, 45, 109, 101, 109,
        98, 101, 114, 115, 45, 109, 97, 110, 105, 102, 101, 115, 116, 47, 118, 49, 0,
    ];
    assert(prefix@ =~= h0);
    if manifest.len() < 36 || !bytes_equal(slice_subrange(manifest, 0, 36), prefix.as_slice()) {
        return Err(validation());
    }
    let mut cursor: usize = 36;
    proof {
        lemma_rest_step(m, 0, h0, t1);
    }
    if let Err(e) = expect_manifest_token(manifest, &mut cursor, snapshot.id.as_str().as_bytes()) {
        return Err(e);
    }
    proof {
        lemma_rest_step(m, 0, h0, t1);
        lemma_rest_step(m, 0, h0 + t1, t2);
    }
    if let Err(e) = expect_manifest_token(
        manifest,
        &mut cursor,
        snapshot.owner.tenant_id.as_str().as_bytes(),
    ) {
        return Err(e);
    }
    proof {
        lemma_rest_step(m, 0, h0 + t1, t2);
        lemma_rest_step(m, 0, h0 + t1 + t2, t3);
    }
    if let Err(e) = expect_manifest_token(
        manifest,
        &mut cursor,
        snapshot.owner.owner_id.as_str().as_bytes(),
    ) {
        return Err(e);
    }
    proof {
        lemma_rest_step(m, 0, h0 + t1 + t2, t3);
        lemma_rest_step(m, 0, h0 + t1 + t2 + t3, t4);
    }
    if let Err(e) = expect_manifest_token(manifest, &mut cursor, snapshot.filter_digest.as_slice()) {
        return Err(e);
    }
    proof {
        lemma_rest_step(m, 0, h0 + t1 + t2 + t3, t4);
    }
    Ok(cursor)
}

/// Verifies the canonical v1 Universe manifest against the snapshot and returns the actor it
/// binds.
#[verifier::rlimit(60)]
pub fn verify_universe_snapshot_manifest(snapshot: &UniverseSnapshot, manifest: &[u8]) -> (result:
    ApplicationResult<String>)
    ensures
        sha256(manifest@) != snapshot.content_hash@ ==> result == Err::<String, _>(
            failure(ApplicationErrorCategory::HashMismatch),
        ),
        result is Ok <==> sha256(manifest@) == snapshot.content_hash@ && manifest_binds_actor(
            *snapshot,
            manifest@,
        ),
        result matches Ok(actor) ==> manifest@ == snapshot_manifest(*snapshot, text_bytes(actor@))
            && is_ulid(text_bytes(actor@)),
        sha256(manifest@) == snapshot.content_hash@ ==> (result matches Err(e) ==> e == failure(
            ApplicationErrorCategory::ValidationFailed,
        )),
{
    let digest = content_digest(manifest);
    if !bytes_equal(digest.as_slice(), snapshot.content_hash.as_slice()) {
        return Err(ApplicationError::new(ApplicationErrorCategory::HashMismatch, false));
    }
    let ghost m = manifest@;
    let ghost enc = manifest_binds_actor(*snapshot, m);
    let ghost a0 = choose|actor: Seq<u8>|
        valid_utf8(actor) && is_ulid(actor) && #[trigger] snapshot_manifest(*snapshot, actor) == m;
    let ghost h = snapshot_head(*snapshot);
    let ghost mt = member_tokens(member_views(snapshot.instrument_versions@));
    let ghost lt = lineage_tokens(lineage_views(snapshot.lineage@));
    proof {
        if enc {
            lemma_manifest_layout(*snapshot, a0);
        }
    }
    let mut cursor = match expect_manifest_head(manifest, snapshot) {
        Ok(c) => c,
        Err(e) => {
            return Err(e);
        },
    };
    let actor_start = cursor;
    proof {
        if enc {
            lemma_rest_step(m, 0, h, token(a0));
            assert(rest_of(m, 0) =~= m);
            lemma_rest_step(m, 0, h, token(a0));
            lemma_token_readable(m, actor_start as int, a0);
        }
    }
    let actor = match manifest_token(manifest, &mut cursor) {
        Ok(value) => value,
        Err(e) => {
            return Err(e);
        },
    };
    let ghost a = actor@;
    proof {
        assert(rest_of(m, actor_start as int).subrange(0, token(a).len() as int) =~= m.subrange(
            actor_start as int,
            cursor as int,
        ));
        assert(m.subrange(0, cursor as int) =~= h + token(a));
        if enc {
            lemma_token_at(m, actor_start as int, a, a0);
            assert(rest_of(m, cursor as int) == mt + lt);
            lemma_starts_with_front(mt, lt);
        }
    }
    let text = match utf8_text(actor) {
        Some(t) => t,
        None => {
            return Err(validation());
        },
    };
    if !is_ulid_bytes(actor) {
        return Err(validation());
    }
    let members_start = cursor;
    if let Err(e) = expect_member_tokens(
        manifest,
        &mut cursor,
        snapshot.instrument_versions.as_slice(),
    ) {
        return Err(e);
    }
    proof {
        let rest = rest_of(m, members_start as int);
        assert(m.subrange(members_start as int, cursor as int) =~= rest.subrange(0, mt.len() as int));
        if enc {
            assert(rest_of(m, cursor as int) =~= lt);
            assert(rest_of(m, cursor as int).subrange(0, lt.len() as int) =~= lt);
        }
    }
    let lineage_start = cursor;
    if let Err(e) = expect_lineage_tokens(manifest, &mut cursor, snapshot.lineage.as_slice()) {
        return Err(e);
    }
    proof {
        let rest = rest_of(m, lineage_start as int);
        assert(m.subrange(lineage_start as int, cursor as int) =~= rest.subrange(0, lt.len() as int));
    }
    if cursor != manifest.len() {
        return Err(validation());
    }
    proof {
        assert(m =~= h + token(a) + mt + lt);
        lemma_manifest_layout(*snapshot, a);
        assert(text_bytes(text@) == a);
    }
    Ok(text)
}


/// Every member orders strictly before the next.
pub open spec fn strictly_ascending(members: Seq<(Seq<char>, u64)>) -> bool {
    forall|i: int, j: int|
        0 <= i < j < members.len() ==> version_ref_less(#[trigger] members[i], #[trigger] members[j])
}

/// Sorts the references and drops repeated ones.
pub fn canonical_members(values: Vec<VersionRef>) -> (sorted: Vec<VersionRef>)
    ensures
        strictly_ascending(member_views(sorted@)),
        forall|x: (Seq<char>, u64)|
            member_views(sorted@).contains(x) <==> member_views(values@).contains(x),
{
    let mut sorted: Vec<VersionRef> = Vec::new();
    let mut i: usize = 0;
    while i < values.len()
        invariant
            i <= values@.len(),
            strictly_ascending(member_views(sorted@)),
            forall|x: (Seq<char>, u64)|
                member_views(sorted@).contains(x) <==> member_views(values@.subrange(
                    0,
                    i as int,
                )).contains(x),
        decreases values.len() - i,
    {
        let value = &values[i];
        let ghost v = value@;
        let ghost before = member_views(sorted@);
        let mut p: usize = 0;
        while p < sorted.len() && version_ref_lt(&sorted[p], value)
            invariant
                p <= sorted@.len(),
                before == member_views(sorted@),
                v == value@,
                forall|k: int| 0 <= k < p ==> version_ref_less(#[trigger] before[k], v),
            decreases sorted.len() - p,
        {
            p = p + 1;
        }
        let ghost prior = member_views(values@.subrange(0, i as int));
        let ghost next = member_views(values@.subrange(0, i + 1));
        proof {
            assert(next =~= prior.push(v));
        }
        if p < sorted.len() && sorted[p].same_as(value) {
            proof {
                assert(before[p as int] == v);
                assert forall|x: (Seq<char>, u64)| before.contains(x) <==> next.contains(x) by {
                    if next.contains(x) && x == v {
                        assert(before[p as int] == x);
                    }
                    if next.contains(x) && x != v {
                        let k = choose|k: int| 0 <= k < next.len() && next[k] == x;
                        assert(prior[k] == x);
                    }
                    if before.contains(x) {
                        let k = choose|k: int| 0 <= k < prior.len() && prior[k] == x;
                        assert(next[k] == x);
                    }
                }
            }
        } else {
            proof {
                if p < sorted@.len() {
                    lemma_version_ref_order(before[p as int], v, v);
                    assert(before[p as int] != v);
                    assert(!version_ref_less(before[p as int], v));
                    lemma_version_ref_order(v, before[p as int], v);
                }
            }
            sorted.insert(p, value.duplicate());
            proof {
                let after = member_views(sorted@);
                assert(after =~= before.insert(p as int, v));
                assert forall|a: int, b: int| 0 <= a < b < after.len() implies version_ref_less(
                    #[trigger] after[a],
                    #[trigger] after[b],
                ) by {
                    if b < p {
                        assert(after[a] == before[a] && after[b] == before[b]);
                    } else if b == p {
                        assert(after[a] == before[a]);
                    } else if a < p {
                        assert(after[a] == before[a] && after[b] == before[b - 1]);
                        if b - 1 > p {
                            lemma_version_ref_order(v, before[p as int], before[b - 1]);
                        }
                        lemma_version_ref_order(before[a], v, before[b - 1]);
                    } else if a == p {
                        assert(after[b] == before[b - 1]);
                        if b - 1 > p {
                            lemma_version_ref_order(v, before[p as int], before[b - 1]);
                        }
                    } else {
                        assert(after[a] == before[a - 1] && after[b] == before[b - 1]);
                    }
                }
                assert forall|x: (Seq<char>, u64)| after.contains(x) <==> next.contains(x) by {
                    if after.contains(x) {
                        let k = choose|k: int| 0 <= k < after.len() && after[k] == x;
                        if k == p {
                            assert(next[prior.len() as int] == x);
                        } else {
                            if k < p {
                                assert(before[k] == x);
                            } else {
                                assert(before[k - 1] == x);
                            }
                            assert(before.contains(x));
                            assert(prior.contains(x));
                            let q = choose|q: int| 0 <= q < prior.len() && prior[q] == x;
                            assert(next[q] == x);
                        }
                    }
                    if next.contains(x) {
                        if x == v {
                            assert(after[p as int] == x);
                        } else {
                            let k = choose|k: int| 0 <= k < next.len() && next[k] == x;
                            assert(prior[k] == x);
                            assert(before.contains(x));
                            let q = choose|q: int| 0 <= q < before.len() && before[q] == x;
                            if q < p {
                                assert(after[q] == x);
                            } else {
                                assert(after[q + 1] == x);
                            }
                        }
                    }
                }
            }
        }
        i = i + 1;
    }
    proof {
        assert(values@.subrange(0, values@.len() as int) =~= values@);
    }
    sorted
}


/// A request to publish a Universe snapshot, with its member set in canonical order.
#[derive(Debug)]
pub struct UniverseSnapshotIntent {
    snapshot_id: String,
    owner: OwnerRef,
    instrument_versions: Vec<VersionRef>,
    filter_digest: Vec<u8>,
    lineage: Vec<LineageRef>,
    actor_id: String,
    idempotency_key: String,
}

impl UniverseSnapshotIntent {
    pub closed spec fn spec_snapshot_id(&self) -> Seq<char> {
        self.snapshot_id@
    }

    pub closed spec fn spec_owner(&self) -> (Seq<char>, Seq<char>) {
        (self.owner.tenant_id@, self.owner.owner_id@)
    }

    pub closed spec fn spec_members(&self) -> Seq<(Seq<char>, u64)> {
        member_views(self.instrument_versions@)
    }

    pub closed spec fn spec_filter_digest(&self) -> Seq<u8> {
        self.filter_digest@
    }

    pub closed spec fn spec_lineage(&self) -> Seq<(Seq<char>, u64, Seq<u8>)> {
        lineage_views(self.lineage@)
    }

    pub closed spec fn spec_actor_id(&self) -> Seq<char> {
        self.actor_id@
    }

    pub closed spec fn spec_idempotency_key(&self) -> Seq<char> {
        self.idempotency_key@
    }

    /// Canonicalizes the member set (sorted, without repeats); the member set and the lineage
    /// must not be empty.
    pub fn new(
        snapshot_id: String,
        owner: OwnerRef,
        instrument_versions: Vec<VersionRef>,
        filter_digest: Vec<u8>,
        lineage: Vec<LineageRef>,
        actor_id: String,
        idempotency_key: String,
    ) -> (result: ApplicationResult<Self>)
        ensures
            result is Ok <==> instrument_versions@.len() > 0 && lineage@.len() > 0,
            result matches Ok(intent) ==> {
                &&& intent.spec_snapshot_id() == snapshot_id@
                &&& intent.spec_owner() == (owner.tenant_id@, owner.owner_id@)
                &&& intent.spec_filter_digest() == filter_digest@
                &&& intent.spec_lineage() == lineage_views(lineage@)
                &&& intent.spec_actor_id() == actor_id@
                &&& intent.spec_idempotency_key() == idempotency_key@
                &&& strictly_ascending(intent.spec_members())
                &&& forall|x: (Seq<char>, u64)|
                    intent.spec_members().contains(x) <==> member_views(
                        instrument_versions@,
                    ).contains(x)
            },
            result matches Err(e) ==> e == failure(ApplicationErrorCategory::ValidationFailed),
    {
        let ghost input = member_views(instrument_versions@);
        let members = canonical_members(instrument_versions);
        if members.len() == 0 || lineage.len() == 0 {
            proof {
                if members@.len() == 0 && input.len() > 0 {
                    assert(input.contains(input[0]));
                    assert(!member_views(members@).contains(input[0]));
                }
            }
            return Err(validation());
        }
        proof {
            if input.len() == 0 {
                assert(member_views(members@).contains(member_views(members@)[0]));
            }
        }
        Ok(
            UniverseSnapshotIntent {
                snapshot_id,
                owner,
                instrument_versions: members,
                filter_digest,
                lineage,
                actor_id,
                idempotency_key,
            },
        )
    }

    pub fn snapshot_id(&self) -> (id: &String)
        ensures
            id@ == self.spec_snapshot_id(),
    {
        &self.snapshot_id
    }

    pub fn owner(&self) -> (owner: &OwnerRef)
        ensures
            (owner.tenant_id@, owner.owner_id@) == self.spec_owner(),
    {
        &self.owner
    }

    pub fn instrument_versions(&self) -> (members: &[VersionRef])
        ensures
            member_views(members@) == self.spec_members(),
    {
        self.instrument_versions.as_slice()
    }

    pub fn filter_digest(&self) -> (digest: &[u8])
        ensures
            digest@ == self.spec_filter_digest(),
    {
        self.filter_digest.as_slice()
    }

    pub fn lineage(&self) -> (lineage: &[LineageRef])
        ensures
            lineage_views(lineage@) == self.spec_lineage(),
    {
        self.lineage.as_slice()
    }

    pub fn actor_id(&self) -> (actor: &String)
        ensures
            actor@ == self.spec_actor_id(),
    {
        &self.actor_id
    }

    pub fn idempotency_key(&self) -> (key: &String)
        ensures
            key@ == self.spec_idempotency_key(),
    {
        &self.idempotency_key
    }
}

/// The canonical members manifest of an intent, whose content hash names the snapshot.
pub fn universe_manifest_bytes(intent: &UniverseSnapshotIntent) -> (bytes: Vec<u8>)
    ensures
        bytes@ == universe_manifest(
            intent.spec_snapshot_id(),
            intent.spec_owner(),
            intent.spec_filter_digest(),
            text_bytes(intent.spec_actor_id()),
            intent.spec_members(),
            intent.spec_lineage(),
        ),
{
    let mut bytes: Vec<u8> = Vec::new();
    push_universe_prefix(&mut bytes);
    append_token(&mut bytes, intent.snapshot_id().as_str().as_bytes());
    append_token(&mut bytes, intent.owner().tenant_id.as_str().as_bytes());
    append_token(&mut bytes, intent.owner().owner_id.as_str().as_bytes());
    append_token(&mut bytes, intent.filter_digest());
    append_token(&mut bytes, intent.actor_id().as_str().as_bytes());
    append_members_and_lineage(&mut bytes, intent.instrument_versions(), intent.lineage());
    proof {
        assert(bytes@ =~= universe_manifest(
            intent.spec_snapshot_id(),
            intent.spec_owner(),
            intent.spec_filter_digest(),
            text_bytes(intent.spec_actor_id()),
            intent.spec_members(),
            intent.spec_lineage(),
        ));
    }
    bytes
}

/// The canonical manifest of a snapshot for a ULID actor verifies, and binds exactly that
/// actor.
pub proof fn law_universe_manifest_round_trip(snapshot: UniverseSnapshot, actor: Seq<u8>, other: Seq<u8>)
    requires
        valid_utf8(actor),
        is_ulid(actor),
    ensures
        manifest_binds_actor(snapshot, snapshot_manifest(snapshot, actor)),
        snapshot_manifest(snapshot, other) == snapshot_manifest(snapshot, actor) ==> other == actor,
{
    if snapshot_manifest(snapshot, other) == snapshot_manifest(snapshot, actor) {
        let m = snapshot_manifest(snapshot, actor);
        lemma_manifest_layout(snapshot, actor);
        lemma_manifest_layout(snapshot, other);
        let h = snapshot_head(snapshot);
        assert(rest_of(m, 0) =~= m);
        lemma_rest_step(m, 0, h, token(actor));
        lemma_rest_step(m, 0, h, token(other));
        lemma_token_at(m, h.len() as int, other, actor);
    }
}

/// Bytes appended to a canonical manifest make it bind no actor at all.
pub proof fn law_universe_manifest_rejects_trailing_bytes(
    snapshot: UniverseSnapshot,
    actor: Seq<u8>,
    extra: Seq<u8>,
)
    requires
        extra.len() > 0,
    ensures
        !manifest_binds_actor(snapshot, snapshot_manifest(snapshot, actor) + extra),
{
    let m = snapshot_manifest(snapshot, actor) + extra;
    if manifest_binds_actor(snapshot, m) {
        let other = choose|a: Seq<u8>|
            valid_utf8(a) && is_ulid(a) && #[trigger] snapshot_manifest(snapshot, a) == m;
        let h = snapshot_head(snapshot);
        lemma_manifest_layout(snapshot, actor);
        lemma_manifest_layout(snapshot, other);
        assert(rest_of(m, 0) =~= m);
        let full = snapshot_manifest(snapshot, actor);
        lemma_starts_with_front(full, extra);
        lemma_starts_with_trans(m, full, h + token(actor));
        lemma_rest_step(m, 0, h, token(actor));
        lemma_rest_step(m, 0, h, token(other));
        lemma_token_at(m, h.len() as int, other, actor);
        assert(snapshot_manifest(snapshot, other).len() == full.len());
    }
}

} // verus!
