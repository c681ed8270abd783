use vstd::prelude::*;
use vstd::string::StringExecFns;

use crate::bytes::{bytes_equal, bytes_less, lemma_lex_irreflexive, lemma_lex_total, lemma_lex_transitive, lex_less, text_bytes};
use crate::error::{ApplicationErrorCategory, ApplicationResult, failure, lineage, not_found, state_conflict};
use crate::primitives::LineageRef;
use crate::text::same_text;

verus! {

/// One visible portfolio group of a catalog: its exact identity, its code and the group it
/// hangs under, if any.
#[derive(Clone, Debug)]
pub struct CatalogGroup {
    pub identity: String,
    pub version: u64,
    pub content_hash: Vec<u8>,
    pub code: String,
    pub parent_group: Option<LineageRef>,
}

/// A lineage reference names exactly this group version.
pub open spec fn names_group(reference: LineageRef, group: CatalogGroup) -> bool {
    &&& reference.object_id@ == group.identity@
    &&& reference.version == Some(group.version)
    &&& (reference.content_hash matches Some(hash) && hash@ == group.content_hash@)
}

/// The position of the first group that a reference names exactly, when the reference is
/// exact and some group matches.
pub open spec fn group_index(groups: Seq<CatalogGroup>, reference: LineageRef) -> Option<int> {
    if reference.version is Some && reference.content_hash is Some && exists|i: int|
        0 <= i < groups.len() && names_group(reference, #[trigger] groups[i]) {
        Some(
            choose|i: int|
                0 <= i < groups.len() && names_group(reference, #[trigger] groups[i]) && forall|j: int|
                    0 <= j < i ==> !names_group(reference, #[trigger] groups[j]),
        )
    } else {
        None
    }
}

proof fn lemma_first_match(groups: Seq<CatalogGroup>, reference: LineageRef, k: int)
    requires
        0 <= k < groups.len(),
        names_group(reference, groups[k]),
        forall|j: int| 0 <= j < k ==> !names_group(reference, #[trigger] groups[j]),
        reference.version is Some,
        reference.content_hash is Some,
    ensures
        group_index(groups, reference) == Some(k),
{
    let c = choose|i: int|
        0 <= i < groups.len() && names_group(reference, #[trigger] groups[i]) && forall|j: int|
            0 <= j < i ==> !names_group(reference, #[trigger] groups[j]);
    assert(0 <= c < groups.len() && names_group(reference, groups[c]) && forall|j: int|
        0 <= j < c ==> !names_group(reference, #[trigger] groups[j]));
    if c < k {
        assert(!names_group(reference, groups[c]));
    }
    if k < c {
        assert(!names_group(reference, groups[k]));
    }
}

fn group_named(group: &CatalogGroup, reference: &LineageRef) -> (named: bool)
    ensures
        named == names_group(*reference, *group),
{
    let hash_matches = match &reference.content_hash {
        Some(hash) => bytes_equal(hash.as_slice(), group.content_hash.as_slice()),
        None => false,
    };
    same_text(&reference.object_id, &group.identity) && reference.version == Some(group.version)
        && hash_matches
}

/// Looks up the group a lineage reference names exactly: incomplete lineage when the reference
/// lacks its version or content hash or names no group.
pub fn find_group(groups: &[CatalogGroup], reference: &LineageRef) -> (result: ApplicationResult<usize>)
    ensures
        result is Ok <==> group_index(groups@, *reference) is Some,
        result matches Ok(index) ==> group_index(groups@, *reference) == Some(index as int) && index
            < groups@.len() && names_group(*reference, groups@[index as int]),
        result matches Err(e) ==> e == failure(ApplicationErrorCategory::LineageIncomplete),
{
    if reference.version.is_none() || reference.content_hash.is_none() {
        return Err(lineage());
    }
    let mut i: usize = 0;
    while i < groups.len()
        invariant
            i <= groups@.len(),
            reference.version is Some,
            reference.content_hash is Some,
            forall|j: int| 0 <= j < i ==> !names_group(*reference, #[trigger] groups@[j]),
        decreases groups.len() - i,
    {
        if group_named(&groups[i], reference) {
            proof {
                lemma_first_match(groups@, *reference, i as int);
            }
            return Ok(i);
        }
        i = i + 1;
    }
    Err(lineage())
}

/// The texts of a sequence of strings.
pub open spec fn text_views(values: Seq<String>) -> Seq<Seq<char>> {
    values.map_values(|s: String| s@)
}

/// The identities of a sequence of groups.
pub open spec fn group_identities(groups: Seq<CatalogGroup>) -> Seq<Seq<char>> {
    groups.map_values(|g: CatalogGroup| g.identity@)
}

/// `id` is the root or descends from it through at most `depth` parent links, each link from a
/// group to the identity its parent reference names.
pub open spec fn descends(groups: Seq<CatalogGroup>, root: Seq<char>, id: Seq<char>, depth: nat) -> bool
    decreases depth,
{
    id == root || (depth > 0 && exists|i: int|
        0 <= i < groups.len() && #[trigger] groups[i].identity@ == id && groups[i].parent_group is Some
            && descends(groups, root, groups[i].parent_group->0.object_id@, (depth - 1) as nat))
}

/// `id` is the root or one of its descendants.
pub open spec fn in_subtree(groups: Seq<CatalogGroup>, root: Seq<char>, id: Seq<char>) -> bool {
    exists|depth: nat| #[trigger] descends(groups, root, id, depth)
}

/// A set of identities is closed under taking children.
pub open spec fn closed_under_children(groups: Seq<CatalogGroup>, ids: Seq<Seq<char>>) -> bool {
    forall|i: int|
        0 <= i < groups.len() && #[trigger] groups[i].parent_group is Some && ids.contains(
            groups[i].parent_group->0.object_id@,
        ) ==> ids.contains(groups[i].identity@)
}

proof fn lemma_closed_contains_subtree(
    groups: Seq<CatalogGroup>,
    root: Seq<char>,
    ids: Seq<Seq<char>>,
    id: Seq<char>,
    depth: nat,
)
    requires
        ids.contains(root),
        closed_under_children(groups, ids),
        descends(groups, root, id, depth),
    ensures
        ids.contains(id),
    decreases depth,
{
    if id != root {
        let i = choose|i: int|
            0 <= i < groups.len() && #[trigger] groups[i].identity@ == id && groups[i].parent_group is Some
                && descends(groups, root, groups[i].parent_group->0.object_id@, (depth - 1) as nat);
        lemma_closed_contains_subtree(
            groups,
            root,
            ids,
            groups[i].parent_group->0.object_id@,
            (depth - 1) as nat,
        );
    }
}

fn contains_text(values: &Vec<String>, value: &String) -> (found: bool)
    ensures
        found == text_views(values@).contains(value@),
{
    let ghost views = text_views(values@);
    let mut i: usize = 0;
    while i < values.len()
        invariant
            i <= values@.len(),
            views == text_views(values@),
            forall|k: int| 0 <= k < i ==> views[k] != value@,
        decreases values.len() - i,
    {
        if same_text(&values[i], value) {
            assert(views[i as int] == value@);
            return true;
        }
        i = i + 1;
    }
    false
}

/// The identities of a group and of every group below it, each once. Fails with incomplete
/// lineage only if the identities found could outnumber the groups, which no catalog whose
/// root is one of its groups allows.
pub fn descendant_group_ids(groups: &[CatalogGroup], root: &String) -> (result: ApplicationResult<
    Vec<String>,
>)
    requires
        exists|g: int| 0 <= g < groups@.len() && #[trigger] groups@[g].identity@ == root@,
    ensures
        result matches Ok(ids) ==> {
            let views = text_views(ids@);
            &&& views.no_duplicates()
            &&& forall|id: Seq<char>| #[trigger] views.contains(id) <==> in_subtree(groups@, root@, id)
        },
        result is Ok,
{
    let mut result: Vec<String> = Vec::new();
    result.push(root.clone());
    let ghost identities = group_identities(groups@);
    proof {
        let views = text_views(result@);
        assert(views =~= seq![root@]);
        assert(descends(groups@, root@, root@, 0));
        let g = choose|g: int| 0 <= g < groups@.len() && #[trigger] groups@[g].identity@ == root@;
        assert(identities[g] == root@);
    }
    let mut grew = true;
    while grew
        invariant
            identities == group_identities(groups@),
            result@.len() >= 1,
            text_views(result@)[0] == root@,
            text_views(result@).no_duplicates(),
            forall|k: int|
                0 <= k < result@.len() ==> identities.contains(
                    #[trigger] text_views(result@)[k],
                ),
            forall|k: int|
                0 <= k < result@.len() ==> in_subtree(
                    groups@,
                    root@,
                    #[trigger] text_views(result@)[k],
                ),
            !grew ==> closed_under_children(groups@, text_views(result@)),
        decreases groups@.len() + 1 - result@.len(), if grew { 1int } else { 0int },
    {
        proof {
            lemma_unique_within(text_views(result@), identities);
        }
        let before = result.len();
        let mut i: usize = 0;
        while i < groups.len()
            invariant
                identities == group_identities(groups@),
                before <= result@.len(),
                result@.len() >= 1,
                text_views(result@)[0] == root@,
                text_views(result@).no_duplicates(),
                i <= groups@.len(),
                forall|k: int|
                    0 <= k < result@.len() ==> identities.contains(
                        #[trigger] text_views(result@)[k],
                    ),
                forall|k: int|
                    0 <= k < result@.len() ==> in_subtree(
                        groups@,
                        root@,
                        #[trigger] text_views(result@)[k],
                    ),
                result@.len() == before ==> forall|j: int|
                    0 <= j < i && #[trigger] groups@[j].parent_group is Some && text_views(result@).contains(groups@[j].parent_group->0.object_id@) ==> text_views(result@).contains(groups@[j].identity@),
            decreases groups.len() - i,
        {
            let group = &groups[i];
            match &group.parent_group {
                Some(parent) => {
                    if contains_text(&result, &parent.object_id) && !contains_text(
                        &result,
                        &group.identity,
                    ) {
                        let ghost old_views = text_views(result@);
                        proof {
                            let k = choose|k: int|
                                0 <= k < old_views.len() && old_views[k] == parent.object_id@;
                            assert(in_subtree(groups@, root@, old_views[k]));
                            let depth = choose|depth: nat|
                                #[trigger] descends(groups@, root@, parent.object_id@, depth);
                            assert(descends(groups@, root@, group.identity@, depth + 1));
                            assert(identities[i as int] == group.identity@);
                        }
                        result.push(group.identity.clone());
                        proof {
                            let views = text_views(result@);
                            assert(views =~= old_views.push(group.identity@));
                            assert forall|k: int|
                                0 <= k < result@.len() implies #[trigger] in_subtree(
                                groups@,
                                root@,
                                views[k],
                            ) by {
                                if k == old_views.len() {
                                    let depth = choose|depth: nat|
                                        #[trigger] descends(groups@, root@, parent.object_id@, depth);
                                    assert(descends(groups@, root@, group.identity@, depth + 1));
                                } else {
                                    assert(views[k] == old_views[k]);
                                }
                            }
                            assert forall|a: int, b: int|
                                0 <= a < views.len() && 0 <= b < views.len() && a != b implies views[a]
                                != views[b] by {
                                if a == old_views.len() {
                                    assert(views[b] == old_views[b]);
                                    assert(old_views.contains(old_views[b]));
                                } else if b == old_views.len() {
                                    assert(views[a] == old_views[a]);
                                    assert(old_views.contains(old_views[a]));
                                } else {
                                    assert(views[a] == old_views[a]);
                                    assert(views[b] == old_views[b]);
                                }
                            }
                        }
                    }
                },
                None => {},
            }
            i = i + 1;
        }
        if result.len() > groups.len() {
            proof {
                lemma_unique_within(text_views(result@), identities);
            }
            return Err(lineage());
        }
        grew = result.len() != before;
    }
    proof {
        let views = text_views(result@);
        assert forall|id: Seq<char>| #[trigger] views.contains(id) <==> in_subtree(groups@, root@, id) by {
            if in_subtree(groups@, root@, id) {
                let depth = choose|depth: nat| #[trigger] descends(groups@, root@, id, depth);
                assert(views.contains(root@)) by {
                    assert(views[0] == root@);
                }
                lemma_closed_contains_subtree(groups@, root@, views, id, depth);
            }
            if views.contains(id) {
                let k = choose|k: int| 0 <= k < views.len() && views[k] == id;
                assert(in_subtree(groups@, root@, views[k]));
            }
        }
    }
    Ok(result)
}

/// Distinct values drawn from a sequence are no more numerous than it.
proof fn lemma_unique_within<T>(values: Seq<T>, pool: Seq<T>)
    requires
        values.no_duplicates(),
        forall|k: int| 0 <= k < values.len() ==> pool.contains(#[trigger] values[k]),
    ensures
        values.len() <= pool.len(),
{
    values.unique_seq_to_set();
    pool.lemma_cardinality_of_set();
    assert(values.to_set().subset_of(pool.to_set())) by {
        assert forall|x: T| values.to_set().contains(x) implies pool.to_set().contains(x) by {
            let k = choose|k: int| 0 <= k < values.len() && values[k] == x;
            assert(pool.contains(values[k]));
        }
    }
    vstd::set_lib::lemma_len_subset(values.to_set(), pool.to_set());
}

/// The exact key of a group version: identity, version and content hash.
pub open spec fn group_key(group: CatalogGroup) -> (Seq<char>, u64, Seq<u8>) {
    (group.identity@, group.version, group.content_hash@)
}

/// No two groups of a chain share their exact key.
pub open spec fn distinct_keys(chain: Seq<CatalogGroup>) -> bool {
    forall|i: int, j: int|
        0 <= i < chain.len() && 0 <= j < chain.len() && i != j ==> group_key(#[trigger] chain[i])
            != group_key(#[trigger] chain[j])
}

/// Each group of a chain but the last has a parent reference that names the next one.
pub open spec fn linked(groups: Seq<CatalogGroup>, chain: Seq<CatalogGroup>) -> bool {
    forall|i: int|
        0 <= i < chain.len() - 1 ==> (#[trigger] chain[i]).parent_group is Some && (group_index(
            groups,
            chain[i].parent_group->0,
        ) matches Some(k) && groups[k] == chain[i + 1])
}

/// The ancestry of a group: the group, then its parent, and so on up to a group without a
/// parent, every step resolved in the catalog and no group version visited twice.
pub open spec fn ancestry_of(groups: Seq<CatalogGroup>, group: CatalogGroup, chain: Seq<CatalogGroup>) -> bool {
    &&& chain.len() >= 1
    &&& chain[0] == group
    &&& linked(groups, chain)
    &&& chain.last().parent_group is None
    &&& distinct_keys(chain)
}

/// The codes of texts joined with `/`.
pub open spec fn slash_join(codes: Seq<Seq<char>>) -> Seq<char>
    decreases codes.len(),
{
    if codes.len() == 0 {
        Seq::empty()
    } else if codes.len() == 1 {
        codes[0]
    } else {
        slash_join(codes.drop_last()) + seq!['/'] + codes.last()
    }
}

/// The path of a group: the codes along its ancestry from the top-level group down to it,
/// joined with `/`.
pub open spec fn group_path_of(chain: Seq<CatalogGroup>) -> Seq<char> {
    slash_join(chain.map_values(|g: CatalogGroup| g.code@).reverse())
}

proof fn lemma_chain_agrees(groups: Seq<CatalogGroup>, prefix: Seq<CatalogGroup>, chain: Seq<CatalogGroup>, i: int)
    requires
        prefix.len() >= 1,
        chain.len() >= 1,
        prefix[0] == chain[0],
        linked(groups, prefix),
        linked(groups, chain),
        0 <= i < prefix.len(),
        i < chain.len(),
    ensures
        chain[i] == prefix[i],
    decreases i,
{
    if i > 0 {
        lemma_chain_agrees(groups, prefix, chain, i - 1);
        assert(prefix[i - 1].parent_group is Some);
        assert(chain[i - 1].parent_group is Some);
    }
}

proof fn lemma_chain_outlasts(groups: Seq<CatalogGroup>, prefix: Seq<CatalogGroup>, chain: Seq<CatalogGroup>)
    requires
        prefix.len() >= 1,
        chain.len() >= 1,
        prefix[0] == chain[0],
        linked(groups, prefix),
        linked(groups, chain),
        chain.last().parent_group is None,
        forall|i: int| 0 <= i < prefix.len() - 1 ==> (#[trigger] prefix[i]).parent_group is Some,
    ensures
        chain.len() >= prefix.len(),
        forall|i: int| 0 <= i < prefix.len() ==> chain[i] == prefix[i],
{
    if chain.len() < prefix.len() {
        lemma_chain_agrees(groups, prefix, chain, chain.len() - 1);
        assert(prefix[chain.len() - 1].parent_group is Some);
    }
    assert forall|i: int| 0 <= i < prefix.len() implies chain[i] == prefix[i] by {
        lemma_chain_agrees(groups, prefix, chain, i);
    }
}

fn same_group_key(a: &CatalogGroup, b: &CatalogGroup) -> (same: bool)
    ensures
        same == (group_key(*a) == group_key(*b)),
{
    same_text(&a.identity, &b.identity) && a.version == b.version && bytes_equal(
        a.content_hash.as_slice(),
        b.content_hash.as_slice(),
    )
}

fn join_reversed(codes: &Vec<String>) -> (text: String)
    ensures
        text@ == slash_join(text_views(codes@).reverse()),
{
    let ghost reversed = text_views(codes@).reverse();
    let mut text = String::new();
    let mut i: usize = codes.len();
    proof {
        reveal_strlit("/");
    }
    while i > 0
        invariant
            i <= codes@.len(),
            reversed == text_views(codes@).reverse(),
            text@ == slash_join(reversed.subrange(0, codes@.len() - i)),
            "/"@ == seq!['/'],
        decreases i,
    {
        let ghost before = reversed.subrange(0, codes@.len() - i);
        let ghost after = reversed.subrange(0, codes@.len() - i + 1);
        assert(after.drop_last() =~= before);
        assert(after.last() == codes@[i - 1]@);
        if i < codes.len() {
            text.append("/");
        }
        text.append(codes[i - 1].as_str());
        assert(text@ =~= slash_join(after));
        i = i - 1;
    }
    assert(reversed.subrange(0, codes@.len() as int) =~= reversed);
    text
}

proof fn lemma_extend_linked(groups: Seq<CatalogGroup>, chain: Seq<CatalogGroup>, k: int)
    requires
        chain.len() >= 1,
        linked(groups, chain),
        chain.last().parent_group is Some,
        group_index(groups, chain.last().parent_group->0) == Some(k),
        0 <= k < groups.len(),
    ensures
        linked(groups, chain.push(groups[k])),
{
    let extended = chain.push(groups[k]);
    assert forall|i: int| 0 <= i < extended.len() - 1 implies (#[trigger] extended[i]).parent_group is Some
        && (group_index(groups, extended[i].parent_group->0) matches Some(m) && groups[m]
        == extended[i + 1]) by {
        if i < chain.len() - 1 {
            assert(extended[i] == chain[i]);
            assert(extended[i + 1] == chain[i + 1]);
        }
    }
}

proof fn lemma_extend_distinct(chain: Seq<CatalogGroup>, next: CatalogGroup)
    requires
        distinct_keys(chain),
        forall|q: int| 0 <= q < chain.len() ==> group_key(#[trigger] chain[q]) != group_key(next),
    ensures
        distinct_keys(chain.push(next)),
{
    let extended = chain.push(next);
    assert forall|a: int, b: int|
        0 <= a < extended.len() && 0 <= b < extended.len() && a != b implies group_key(
        #[trigger] extended[a],
    ) != group_key(#[trigger] extended[b]) by {
        if a == chain.len() {
            assert(extended[b] == chain[b]);
        } else if b == chain.len() {
            assert(extended[a] == chain[a]);
        } else {
            assert(extended[a] == chain[a]);
            assert(extended[b] == chain[b]);
        }
    }
}

proof fn lemma_chain_within_groups(groups: Seq<CatalogGroup>, chain: Seq<CatalogGroup>, indices: Seq<usize>)
    requires
        chain.len() == indices.len() + 1,
        distinct_keys(chain),
        forall|q: int| 0 <= q < indices.len() ==> indices[q] < groups.len() && chain[q + 1]
            == groups[indices[q] as int],
    ensures
        indices.len() <= groups.len(),
{
    let keys = chain.drop_first().map_values(|g: CatalogGroup| group_key(g));
    let pool = groups.map_values(|g: CatalogGroup| group_key(g));
    assert forall|a: int| 0 <= a < keys.len() implies pool.contains(#[trigger] keys[a]) by {
        assert(pool[indices[a] as int] == keys[a]);
    }
    assert(keys.no_duplicates()) by {
        assert forall|a: int, b: int|
            0 <= a < keys.len() && 0 <= b < keys.len() && a != b implies keys[a] != keys[b] by {
            assert(group_key(chain[a + 1]) != group_key(chain[b + 1]));
        }
    }
    lemma_unique_within(keys, pool);
}

proof fn lemma_no_ancestry_after_missing_parent(groups: Seq<CatalogGroup>, group: CatalogGroup, chain: Seq<CatalogGroup>)
    requires
        chain.len() >= 1,
        chain[0] == group,
        linked(groups, chain),
        forall|i: int| 0 <= i < chain.len() - 1 ==> (#[trigger] chain[i]).parent_group is Some,
        chain.last().parent_group is Some,
        group_index(groups, chain.last().parent_group->0) is None,
    ensures
        forall|full: Seq<CatalogGroup>| !#[trigger] ancestry_of(groups, group, full),
{
    assert forall|full: Seq<CatalogGroup>| !#[trigger] ancestry_of(groups, group, full) by {
        if ancestry_of(groups, group, full) {
            lemma_chain_outlasts(groups, chain, full);
            assert(full[chain.len() - 1] == chain.last());
            assert(full.len() > chain.len());
        }
    }
}

proof fn lemma_no_ancestry_after_repeat(
    groups: Seq<CatalogGroup>,
    group: CatalogGroup,
    chain: Seq<CatalogGroup>,
    k: int,
    q: int,
)
    requires
        chain.len() >= 1,
        chain[0] == group,
        linked(groups, chain),
        forall|i: int| 0 <= i < chain.len() - 1 ==> (#[trigger] chain[i]).parent_group is Some,
        chain.last().parent_group is Some,
        group_index(groups, chain.last().parent_group->0) == Some(k),
        0 <= k < groups.len(),
        0 <= q < chain.len(),
        group_key(chain[q]) == group_key(groups[k]),
    ensures
        forall|full: Seq<CatalogGroup>| !#[trigger] ancestry_of(groups, group, full),
{
    assert forall|full: Seq<CatalogGroup>| !#[trigger] ancestry_of(groups, group, full) by {
        if ancestry_of(groups, group, full) {
            lemma_chain_outlasts(groups, chain, full);
            assert(full[chain.len() - 1] == chain.last());
            assert(full.len() > chain.len());
            assert(full[chain.len() as int] == groups[k]);
            assert(full[q] == chain[q]);
        }
    }
}

/// The `/`-joined codes from the top-level ancestor of a group down to the group. Fails with
/// incomplete lineage when a parent reference is not exact or names no group, or when the
/// ancestry returns to a group version it already passed.
#[verifier::rlimit(60)]
pub fn group_path<'a>(groups: &'a [CatalogGroup], group: &'a CatalogGroup) -> (result:
    ApplicationResult<String>)
    ensures
        result is Ok <==> exists|chain: Seq<CatalogGroup>| #[trigger] ancestry_of(groups@, *group, chain),
        result matches Ok(path) ==> forall|chain: Seq<CatalogGroup>|
            #[trigger] ancestry_of(groups@, *group, chain) ==> path@ == group_path_of(chain),
        result matches Err(e) ==> e == failure(ApplicationErrorCategory::LineageIncomplete),
{
    let mut current: &CatalogGroup = group;
    let mut indices: Vec<usize> = Vec::new();
    let mut codes: Vec<String> = Vec::new();
    codes.push(group.code.clone());
    let ghost mut chain: Seq<CatalogGroup> = seq![*group];
    proof {
        assert(text_views(codes@) =~= chain.map_values(|g: CatalogGroup| g.code@));
    }
    loop
        invariant
            chain.len() == indices@.len() + 1,
            chain[0] == *group,
            *current == chain.last(),
            forall|q: int| 0 <= q < indices@.len() ==> indices@[q] < groups@.len() && chain[q + 1]
                == groups@[indices@[q] as int],
            linked(groups@, chain),
            distinct_keys(chain),
            forall|i: int| 0 <= i < chain.len() - 1 ==> (#[trigger] chain[i]).parent_group is Some,
            text_views(codes@) == chain.map_values(|g: CatalogGroup| g.code@),
            indices@.len() <= groups@.len(),
        ensures
            chain.len() >= 1,
            chain[0] == *group,
            linked(groups@, chain),
            distinct_keys(chain),
            forall|i: int| 0 <= i < chain.len() - 1 ==> (#[trigger] chain[i]).parent_group is Some,
            chain.last().parent_group is None,
            text_views(codes@) == chain.map_values(|g: CatalogGroup| g.code@),
        decreases groups@.len() - indices@.len(),
    {
        let parent = match &current.parent_group {
            Some(parent) => parent,
            None => {
                break;
            },
        };
        let k = match find_group(groups, parent) {
            Ok(k) => k,
            Err(e) => {
                proof {
                    lemma_no_ancestry_after_missing_parent(groups@, *group, chain);
                }
                return Err(e);
            },
        };
        let next = &groups[k];
        let mut repeated = same_group_key(next, group);
        let mut j: usize = 0;
        while j < indices.len() && !repeated
            invariant
                j <= indices@.len(),
                chain.len() == indices@.len() + 1,
                forall|q: int| 0 <= q < indices@.len() ==> indices@[q] < groups@.len() && chain[q + 1]
                    == groups@[indices@[q] as int],
                chain[0] == *group,
                repeated ==> exists|q: int| 0 <= q < chain.len() && group_key(#[trigger] chain[q]) == group_key(*next),
                !repeated ==> forall|q: int| 0 <= q <= j ==> group_key(#[trigger] chain[q]) != group_key(*next),
            decreases indices.len() - j,
        {
            if same_group_key(next, &groups[indices[j]]) {
                assert(group_key(chain[j + 1]) == group_key(*next));
                repeated = true;
            }
            j = j + 1;
        }
        if repeated {
            proof {
                let q = choose|q: int| 0 <= q < chain.len() && group_key(#[trigger] chain[q]) == group_key(*next);
                lemma_no_ancestry_after_repeat(groups@, *group, chain, k as int, q);
            }
            return Err(lineage());
        }
        let ghost extended = chain.push(*next);
        proof {
            lemma_extend_linked(groups@, chain, k as int);
            lemma_extend_distinct(chain, *next);
            assert forall|q: int| 0 <= q < indices@.len() + 1 implies (if q < indices@.len() {
                indices@[q]
            } else {
                k
            }) < groups@.len() && extended[q + 1] == groups@[(if q < indices@.len() {
                indices@[q]
            } else {
                k
            }) as int] by {}
        }
        indices.push(k);
        let ghost old_codes = codes@;
        let code = next.code.clone();
        codes.push(code);
        current = next;
        proof {
            assert(text_views(codes@) =~= text_views(old_codes).push(next.code@));
            assert(extended.map_values(|g: CatalogGroup| g.code@) =~= chain.map_values(
                |g: CatalogGroup| g.code@,
            ).push(next.code@));
            chain = extended;
            assert(forall|q: int| 0 <= q < indices@.len() ==> indices@[q] < groups@.len() && chain[q + 1]
                == groups@[indices@[q] as int]);
            lemma_chain_within_groups(groups@, chain, indices@);
            assert(text_views(codes@) =~= chain.map_values(|g: CatalogGroup| g.code@));
        }
    }
    let ghost found = chain;
    proof {
        assert(ancestry_of(groups@, *group, found));
        assert forall|full: Seq<CatalogGroup>| #[trigger] ancestry_of(groups@, *group, full) implies full
            =~= found by {
            lemma_chain_outlasts(groups@, found, full);
            if full.len() > found.len() {
                assert(full[found.len() - 1] == found.last());
            }
        }
    }
    let path = join_reversed(&codes);
    Ok(path)
}

/// One version of a catalog definition: its identity, its version and the record itself.
#[derive(Clone, Debug)]
pub struct CatalogVersion<R> {
    pub identity: String,
    pub version: u64,
    pub record: R,
}

/// The identity of a version as bytes.
pub open spec fn identity_bytes<R>(value: CatalogVersion<R>) -> Seq<u8> {
    text_bytes(value.identity@)
}

/// Two versions are of the same definition.
pub open spec fn same_identity<R>(a: CatalogVersion<R>, b: CatalogVersion<R>) -> bool {
    identity_bytes(a) == identity_bytes(b)
}

/// The version at `j` repeats the highest version its definition had among the versions before
/// it.
pub open spec fn repeats_latest<R>(records: Seq<CatalogVersion<R>>, j: int) -> bool {
    &&& 0 <= j < records.len()
    &&& exists|i: int| 0 <= i < j && same_identity(#[trigger] records[i], records[j]) && records[i].version == records[j].version
    &&& forall|k: int| 0 <= k < j && same_identity(#[trigger] records[k], records[j]) ==> records[k].version <= records[j].version
}

/// `value` is the latest version of its definition among `records`.
pub open spec fn is_latest_in<R>(records: Seq<CatalogVersion<R>>, value: CatalogVersion<R>) -> bool {
    &&& records.contains(value)
    &&& forall|k: int| 0 <= k < records.len() && same_identity(#[trigger] records[k], value) ==> records[k].version <= value.version
}

/// Versions are in strictly ascending order of identity.
pub open spec fn identities_ascending<R>(values: Seq<CatalogVersion<R>>) -> bool {
    forall|a: int, b: int| 0 <= a < b < values.len() ==> lex_less(identity_bytes(#[trigger] values[a]), identity_bytes(#[trigger] values[b]))
}

/// The latest versions of a prefix of the records: one per definition, in identity order.
pub open spec fn latest_of<R>(records: Seq<CatalogVersion<R>>, result: Seq<CatalogVersion<R>>) -> bool {
    &&& identities_ascending(result)
    &&& forall|r: int| 0 <= r < result.len() ==> is_latest_in(records, #[trigger] result[r])
    &&& forall|k: int| 0 <= k < records.len() ==> #[trigger] has_identity_of(result, records[k])
}

/// Some version in `values` is of the same definition as `value`.
pub open spec fn has_identity_of<R>(values: Seq<CatalogVersion<R>>, value: CatalogVersion<R>) -> bool {
    exists|r: int| 0 <= r < values.len() && same_identity(#[trigger] values[r], value)
}

fn identity_before<R>(a: &CatalogVersion<R>, b: &CatalogVersion<R>) -> (less: bool)
    ensures
        less == lex_less(identity_bytes(*a), identity_bytes(*b)),
{
    bytes_less(a.identity.as_str().as_bytes(), b.identity.as_str().as_bytes())
}

fn identity_same<R>(a: &CatalogVersion<R>, b: &CatalogVersion<R>) -> (same: bool)
    ensures
        same == same_identity(*a, *b),
{
    bytes_equal(a.identity.as_str().as_bytes(), b.identity.as_str().as_bytes())
}

proof fn lemma_identity_order<R>(a: CatalogVersion<R>, b: CatalogVersion<R>, c: CatalogVersion<R>)
    ensures
        !lex_less(identity_bytes(a), identity_bytes(a)),
        lex_less(identity_bytes(a), identity_bytes(b)) && lex_less(identity_bytes(b), identity_bytes(c))
            ==> lex_less(identity_bytes(a), identity_bytes(c)),
        !same_identity(a, b) ==> lex_less(identity_bytes(a), identity_bytes(b)) || lex_less(
            identity_bytes(b),
            identity_bytes(a),
        ),
        lex_less(identity_bytes(a), identity_bytes(b)) ==> !same_identity(a, b),
{
    lemma_lex_irreflexive(identity_bytes(a));
    if lex_less(identity_bytes(a), identity_bytes(b)) && lex_less(identity_bytes(b), identity_bytes(c)) {
        lemma_lex_transitive(identity_bytes(a), identity_bytes(b), identity_bytes(c));
    }
    if !same_identity(a, b) {
        lemma_lex_total(identity_bytes(a), identity_bytes(b));
    }
}

/// The step that inserts a version of a definition not seen before at its place in identity
/// order keeps the result the latest versions of the longer prefix.
proof fn lemma_insert_new<R>(
    prefix: Seq<CatalogVersion<R>>,
    result: Seq<CatalogVersion<R>>,
    x: CatalogVersion<R>,
    p: int,
)
    requires
        latest_of(prefix, result),
        0 <= p <= result.len(),
        forall|q: int| 0 <= q < p ==> lex_less(identity_bytes(#[trigger] result[q]), identity_bytes(x)),
        p < result.len() ==> lex_less(identity_bytes(x), identity_bytes(result[p])),
    ensures
        latest_of(prefix.push(x), result.insert(p, x)),
        forall|k: int| 0 <= k < prefix.len() ==> !same_identity(#[trigger] prefix[k], x),
{
    let next = result.insert(p, x);
    let longer = prefix.push(x);
    assert forall|k: int| 0 <= k < prefix.len() implies !same_identity(#[trigger] prefix[k], x) by {
        assert(has_identity_of(result, prefix[k]));
        let r = choose|r: int| 0 <= r < result.len() && same_identity(#[trigger] result[r], prefix[k]);
        if same_identity(prefix[k], x) {
            if r < p {
                lemma_identity_order(result[r], x, x);
            } else {
                if r > p {
                    lemma_identity_order(x, result[p], result[r]);
                }
                lemma_identity_order(x, result[r], x);
            }
        }
    }
    assert forall|a: int, b: int| 0 <= a < b < next.len() implies lex_less(
        identity_bytes(#[trigger] next[a]),
        identity_bytes(#[trigger] next[b]),
    ) by {
        if b < p {
        } else if b == p {
        } else if a == p {
            if b - 1 > p {
                lemma_identity_order(x, result[p], result[b - 1]);
            }
        } else if a < p {
            lemma_identity_order(result[a], x, result[b - 1]);
            if b - 1 > p {
                lemma_identity_order(x, result[p], result[b - 1]);
            }
        }
    }
    assert forall|r: int| 0 <= r < next.len() implies is_latest_in(longer, #[trigger] next[r]) by {
        if r == p {
            assert(longer[prefix.len() as int] == x);
        } else {
            let old = if r < p { r } else { r - 1 };
            assert(next[r] == result[old]);
            assert(is_latest_in(prefix, result[old]));
            let w = choose|w: int| 0 <= w < prefix.len() && prefix[w] == result[old];
            assert(longer[w] == result[old]);
            if same_identity(x, result[old]) {
                assert(!same_identity(prefix[w], x));
            }
        }
    }
    assert forall|k: int| 0 <= k < longer.len() implies #[trigger] has_identity_of(next, longer[k]) by {
        if k == prefix.len() {
            assert(same_identity(next[p], longer[k]));
        } else {
            assert(has_identity_of(result, prefix[k]));
            let r = choose|r: int| 0 <= r < result.len() && same_identity(#[trigger] result[r], prefix[k]);
            let at = if r < p { r } else { r + 1 };
            assert(next[at] == result[r]);
        }
    }
}

/// Replacing the latest version of a definition by a higher one, or keeping it against a lower
/// one, keeps the result the latest versions of the longer prefix.
proof fn lemma_update_existing<R>(
    prefix: Seq<CatalogVersion<R>>,
    result: Seq<CatalogVersion<R>>,
    x: CatalogVersion<R>,
    p: int,
)
    requires
        latest_of(prefix, result),
        0 <= p < result.len(),
        same_identity(result[p], x),
        result[p].version != x.version,
    ensures
        result[p].version > x.version ==> latest_of(prefix.push(x), result),
        result[p].version < x.version ==> latest_of(prefix.push(x), result.update(p, x)),
        !repeats_latest(prefix.push(x), prefix.len() as int),
{
    let longer = prefix.push(x);
    let prev = result[p];
    assert(is_latest_in(prefix, prev));
    assert forall|r: int| 0 <= r < result.len() && r != p implies !same_identity(#[trigger] result[r], x) by {
        if r < p {
            lemma_identity_order(result[r], prev, prev);
        } else {
            lemma_identity_order(prev, result[r], prev);
        }
    }
    assert forall|k: int| 0 <= k < prefix.len() && same_identity(#[trigger] prefix[k], x) implies prefix[k].version
        <= prev.version by {
        assert(same_identity(prefix[k], prev));
    }
    if prev.version > x.version {
        assert forall|r: int| 0 <= r < result.len() implies is_latest_in(longer, #[trigger] result[r]) by {
            assert(is_latest_in(prefix, result[r]));
            let w = choose|w: int| 0 <= w < prefix.len() && prefix[w] == result[r];
            assert(longer[w] == result[r]);
        }
        assert forall|k: int| 0 <= k < longer.len() implies #[trigger] has_identity_of(result, longer[k]) by {
            if k == prefix.len() {
                assert(same_identity(result[p], longer[k]));
            } else {
                assert(has_identity_of(result, prefix[k]));
            }
        }
    }
    if prev.version < x.version {
        let next = result.update(p, x);
        assert forall|a: int, b: int| 0 <= a < b < next.len() implies lex_less(
            identity_bytes(#[trigger] next[a]),
            identity_bytes(#[trigger] next[b]),
        ) by {
            assert(identity_bytes(next[p]) == identity_bytes(result[p]));
            assert(identities_ascending(result));
            assert(lex_less(identity_bytes(result[a]), identity_bytes(result[b])));
        }
        assert forall|r: int| 0 <= r < next.len() implies is_latest_in(longer, #[trigger] next[r]) by {
            if r == p {
                assert(longer[prefix.len() as int] == x);
            } else {
                assert(is_latest_in(prefix, result[r]));
                let w = choose|w: int| 0 <= w < prefix.len() && prefix[w] == result[r];
                assert(longer[w] == result[r]);
            }
        }
        assert forall|k: int| 0 <= k < longer.len() implies #[trigger] has_identity_of(next, longer[k]) by {
            if k == prefix.len() {
                assert(same_identity(next[p], longer[k]));
            } else {
                assert(has_identity_of(result, prefix[k]));
                let r = choose|r: int| 0 <= r < result.len() && same_identity(#[trigger] result[r], prefix[k]);
                if r == p {
                    assert(same_identity(next[p], prefix[k]));
                } else {
                    assert(next[r] == result[r]);
                }
            }
        }
    }
    if repeats_latest(longer, prefix.len() as int) {
        let i = choose|i: int| 0 <= i < prefix.len() && same_identity(#[trigger] longer[i], longer[prefix.len() as int])
            && longer[i].version == longer[prefix.len() as int].version;
        assert(longer[i] == prefix[i]);
        let w = choose|w: int| 0 <= w < prefix.len() && prefix[w] == prev;
        assert(longer[w] == prev);
    }
}

/// The latest version of each catalog definition, in identity order. Fails with a state
/// conflict when a version repeats the highest version its definition had among the versions
/// before it.
pub fn latest_versions<R>(records: Vec<CatalogVersion<R>>) -> (result: ApplicationResult<Vec<CatalogVersion<R>>>)
    ensures
        result is Ok <==> forall|j: int| !#[trigger] repeats_latest(records@, j),
        result matches Ok(latest) ==> latest_of(records@, latest@),
        result matches Err(e) ==> e == failure(ApplicationErrorCategory::StateConflict),
{
    let ghost all = records@;
    let total = records.len();
    let mut input = records;
    let mut result: Vec<CatalogVersion<R>> = Vec::new();
    let mut j: usize = 0;
    proof {
        assert(latest_of(all.subrange(0, 0), result@));
    }
    while input.len() > 0
        invariant
            j <= all.len(),
            all.len() == total,
            all == records@,
            input@ == all.subrange(j as int, all.len() as int),
            latest_of(all.subrange(0, j as int), result@),
            forall|q: int| 0 <= q < j ==> !#[trigger] repeats_latest(all, q),
        decreases input.len(),
    {
        let x = input.remove(0);
        let ghost prefix = all.subrange(0, j as int);
        assert(all.subrange(0, j + 1) =~= prefix.push(x));
        let mut p: usize = 0;
        while p < result.len() && identity_before(&result[p], &x)
            invariant
                p <= result@.len(),
                forall|q: int| 0 <= q < p ==> lex_less(identity_bytes(#[trigger] result@[q]), identity_bytes(x)),
            decreases result.len() - p,
        {
            p = p + 1;
        }
        if p < result.len() && identity_same(&result[p], &x) {
            let previous = result[p].version;
            if previous == x.version {
                proof {
                    let longer = prefix.push(x);
                    assert(is_latest_in(prefix, result@[p as int]));
                    let w = choose|w: int| 0 <= w < prefix.len() && prefix[w] == result@[p as int];
                    assert(same_identity(longer[w], longer[j as int]));
                    assert forall|k: int| 0 <= k < j && same_identity(#[trigger] all[k], all[j as int]) implies all[k].version
                        <= all[j as int].version by {
                        assert(prefix[k] == all[k]);
                        assert(same_identity(prefix[k], result@[p as int]));
                    }
                    assert(all[w] == prefix[w]);
                    assert(repeats_latest(all, j as int));
                }
                return Err(state_conflict());
            }
            proof {
                lemma_update_existing(prefix, result@, x, p as int);
                assert(!repeats_latest(all, j as int)) by {
                    if repeats_latest(all, j as int) {
                        assert forall|q: int| 0 <= q < j + 1 implies all[q] == prefix.push(x)[q] by {}
                        assert(repeats_latest(prefix.push(x), prefix.len() as int));
                    }
                }
            }
            if previous < x.version {
                result.set(p, x);
            }
        } else {
            proof {
                if p < result@.len() {
                    lemma_identity_order(x, result@[p as int], x);
                    lemma_identity_order(result@[p as int], x, x);
                }
                lemma_insert_new(prefix, result@, x, p as int);
                assert(!repeats_latest(all, j as int)) by {
                    if repeats_latest(all, j as int) {
                        let i = choose|i: int| 0 <= i < j && same_identity(#[trigger] all[i], all[j as int])
                            && all[i].version == all[j as int].version;
                        assert(prefix[i] == all[i]);
                    }
                }
            }
            result.insert(p, x);
        }
        j = j + 1;
    }
    proof {
        assert(all.subrange(0, j as int) =~= all);
        assert forall|q: int| !#[trigger] repeats_latest(all, q) by {
            if 0 <= q < all.len() {
                assert(!repeats_latest(all, q));
            }
        }
    }
    Ok(result)
}

/// The position at `i` holds the highest version of the definition `id`, and no later
/// position holds that definition at that version.
pub open spec fn last_latest_at<R>(records: Seq<CatalogVersion<R>>, id: Seq<u8>, i: int) -> bool {
    &&& 0 <= i < records.len()
    &&& identity_bytes(records[i]) == id
    &&& forall|k: int| 0 <= k < records.len() && identity_bytes(#[trigger] records[k]) == id ==> records[k].version <= records[i].version
    &&& forall|k: int| i < k < records.len() && identity_bytes(#[trigger] records[k]) == id ==> records[k].version != records[i].version
}

/// The highest version of one definition, the last of them when several share it; not found
/// when no version of the definition is present.
pub fn latest_by_id<R>(records: &[CatalogVersion<R>], id: &str) -> (result: ApplicationResult<usize>)
    ensures
        result is Ok <==> exists|k: int| 0 <= k < records@.len() && identity_bytes(#[trigger] records@[k]) == text_bytes(id@),
        result matches Ok(i) ==> last_latest_at(records@, text_bytes(id@), i as int),
        result matches Err(e) ==> e == failure(ApplicationErrorCategory::NotFound),
{
    let key = id.as_bytes();
    let mut best: Option<usize> = None;
    let mut k: usize = 0;
    while k < records.len()
        invariant
            k <= records@.len(),
            key@ == text_bytes(id@),
            best is None <==> forall|q: int| 0 <= q < k ==> identity_bytes(#[trigger] records@[q]) != key@,
            best matches Some(b) ==> b < k && identity_bytes(records@[b as int]) == key@
                && (forall|q: int| 0 <= q < k && identity_bytes(#[trigger] records@[q]) == key@ ==> records@[q].version <= records@[b as int].version)
                && (forall|q: int| b < q < k && identity_bytes(#[trigger] records@[q]) == key@ ==> records@[q].version != records@[b as int].version),
        decreases records.len() - k,
    {
        if bytes_equal(records[k].identity.as_str().as_bytes(), key) {
            best = match best {
                Some(b) => if records[k].version >= records[b].version {
                    Some(k)
                } else {
                    Some(b)
                },
                None => Some(k),
            };
        }
        k = k + 1;
    }
    match best {
        Some(b) => Ok(b),
        None => Err(not_found()),
    }
}

proof fn lemma_tail_linked(groups: Seq<CatalogGroup>, chain: Seq<CatalogGroup>)
    requires
        linked(groups, chain),
        chain.len() >= 2,
    ensures
        linked(groups, chain.drop_first()),
{
    let rest = chain.drop_first();
    assert forall|i: int| 0 <= i < rest.len() - 1 implies (#[trigger] rest[i]).parent_group is Some && (group_index(
        groups,
        rest[i].parent_group->0,
    ) matches Some(k) && groups[k] == rest[i + 1]) by {
        assert(rest[i] == chain[i + 1]);
        assert(rest[i + 1] == chain[i + 2]);
        assert(chain[i + 1].parent_group is Some);
    }
}

proof fn lemma_tail_distinct(chain: Seq<CatalogGroup>)
    requires
        distinct_keys(chain),
        chain.len() >= 2,
    ensures
        distinct_keys(chain.drop_first()),
{
    let rest = chain.drop_first();
    assert forall|a: int, b: int|
        0 <= a < rest.len() && 0 <= b < rest.len() && a != b implies group_key(#[trigger] rest[a]) != group_key(
        #[trigger] rest[b],
    ) by {
        assert(rest[a] == chain[a + 1]);
        assert(rest[b] == chain[b + 1]);
    }
}

proof fn lemma_tail_ancestry(groups: Seq<CatalogGroup>, child: CatalogGroup, chain: Seq<CatalogGroup>)
    requires
        ancestry_of(groups, child, chain),
        chain.len() >= 2,
    ensures
        ancestry_of(groups, chain[1], chain.drop_first()),
{
    lemma_tail_linked(groups, chain);
    lemma_tail_distinct(chain);
    assert(chain.drop_first().last() == chain.last());
}

proof fn lemma_path_of_longer_chain(chain: Seq<CatalogGroup>)
    requires
        chain.len() >= 2,
    ensures
        group_path_of(chain) == group_path_of(chain.drop_first()) + seq!['/'] + chain[0].code@,
{
    let codes = chain.map_values(|g: CatalogGroup| g.code@).reverse();
    let rest_codes = chain.drop_first().map_values(|g: CatalogGroup| g.code@).reverse();
    assert(codes.drop_last() =~= rest_codes);
    assert(codes.last() == chain[0].code@);
}

/// The path of a group below a parent is its parent's path, a `/`, and its own code; the
/// parent's ancestry is the rest of the group's.
pub proof fn law_child_path_extends_parent(
    groups: Seq<CatalogGroup>,
    child: CatalogGroup,
    chain: Seq<CatalogGroup>,
)
    requires
        ancestry_of(groups, child, chain),
        chain.len() >= 2,
    ensures
        ancestry_of(groups, chain[1], chain.drop_first()),
        group_path_of(chain) == group_path_of(chain.drop_first()) + seq!['/'] + child.code@,
{
    lemma_tail_ancestry(groups, child, chain);
    lemma_path_of_longer_chain(chain);
}

} // verus!
