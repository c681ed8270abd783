use vstd::prelude::*;

use crate::bytes::{
    bytes_equal, bytes_less, lemma_lex_irreflexive, lemma_lex_total, lemma_lex_transitive, lex_less,
    text_bytes,
};
use crate::cursor::CatalogCursorKey;
use vstd::multiset::Multiset;
use crate::error::{ApplicationErrorCategory, ApplicationResult, failure, state_conflict};

verus! {

broadcast use vstd::seq_lib::group_to_multiset_ensures;

/// One catalog entry: a visible record and the key it is listed under.
#[derive(Clone, Debug)]
pub struct PortfolioCatalogEntry<Record> {
    pub record: Record,
    pub key: CatalogCursorKey,
}

/// The byte view of a sort key: book code, group path and portfolio code as UTF-8, then the
/// version.
pub open spec fn key_view(key: CatalogCursorKey) -> (Seq<u8>, Seq<u8>, Seq<u8>, u64) {
    (text_bytes(key.book_code@), text_bytes(key.group_path@), text_bytes(key.portfolio_code@), key.version)
}

/// The listing order of sort keys: by book code, then group path, then portfolio code, each as
/// bytes, then by version.
pub open spec fn key_less(a: CatalogCursorKey, b: CatalogCursorKey) -> bool {
    let (ab, ag, ap, av) = key_view(a);
    let (bb, bg, bp, bv) = key_view(b);
    ||| lex_less(ab, bb)
    ||| (ab == bb && lex_less(ag, bg))
    ||| (ab == bb && ag == bg && lex_less(ap, bp))
    ||| (ab == bb && ag == bg && ap == bp && av < bv)
}

/// The listing order is a strict total order on key views.
pub proof fn lemma_key_order(a: CatalogCursorKey, b: CatalogCursorKey, c: CatalogCursorKey)
    ensures
        !key_less(a, a),
        key_less(a, b) ==> !key_less(b, a),
        key_less(a, b) && key_less(b, c) ==> key_less(a, c),
        key_view(a) != key_view(b) ==> key_less(a, b) || key_less(b, a),
{
    let (ab, ag, ap, av) = key_view(a);
    let (bb, bg, bp, bv) = key_view(b);
    let (cb, cg, cp, cv) = key_view(c);
    lemma_lex_irreflexive(ab);
    lemma_lex_irreflexive(ag);
    lemma_lex_irreflexive(ap);
    if lex_less(ab, bb) && lex_less(bb, ab) {
        lemma_lex_transitive(ab, bb, ab);
    }
    if lex_less(ag, bg) && lex_less(bg, ag) {
        lemma_lex_transitive(ag, bg, ag);
    }
    if lex_less(ap, bp) && lex_less(bp, ap) {
        lemma_lex_transitive(ap, bp, ap);
    }
    if lex_less(ab, bb) && lex_less(bb, cb) {
        lemma_lex_transitive(ab, bb, cb);
    }
    if lex_less(ag, bg) && lex_less(bg, cg) {
        lemma_lex_transitive(ag, bg, cg);
    }
    if lex_less(ap, bp) && lex_less(bp, cp) {
        lemma_lex_transitive(ap, bp, cp);
    }
    if ab != bb {
        lemma_lex_total(ab, bb);
    }
    if ag != bg {
        lemma_lex_total(ag, bg);
    }
    if ap != bp {
        lemma_lex_total(ap, bp);
    }
}

fn key_before(a: &CatalogCursorKey, b: &CatalogCursorKey) -> (less: bool)
    ensures
        less == key_less(*a, *b),
{
    let ab = a.book_code.as_str().as_bytes();
    let bb = b.book_code.as_str().as_bytes();
    if bytes_less(ab, bb) {
        return true;
    }
    if !bytes_equal(ab, bb) {
        return false;
    }
    let ag = a.group_path.as_str().as_bytes();
    let bg = b.group_path.as_str().as_bytes();
    if bytes_less(ag, bg) {
        return true;
    }
    if !bytes_equal(ag, bg) {
        return false;
    }
    let ap = a.portfolio_code.as_str().as_bytes();
    let bp = b.portfolio_code.as_str().as_bytes();
    if bytes_less(ap, bp) {
        return true;
    }
    if !bytes_equal(ap, bp) {
        return false;
    }
    a.version < b.version
}

fn same_key(a: &CatalogCursorKey, b: &CatalogCursorKey) -> (same: bool)
    ensures
        same == (key_view(*a) == key_view(*b)),
{
    bytes_equal(a.book_code.as_str().as_bytes(), b.book_code.as_str().as_bytes()) && bytes_equal(
        a.group_path.as_str().as_bytes(),
        b.group_path.as_str().as_bytes(),
    ) && bytes_equal(a.portfolio_code.as_str().as_bytes(), b.portfolio_code.as_str().as_bytes())
        && a.version == b.version
}

/// Entries are in listing order, equal keys allowed.
pub open spec fn keys_nondecreasing<R>(entries: Seq<PortfolioCatalogEntry<R>>) -> bool {
    forall|i: int, j: int| 0 <= i < j < entries.len() ==> !key_less(#[trigger] entries[j].key, #[trigger] entries[i].key)
}

/// Entries are in strictly ascending listing order.
pub open spec fn keys_ascending<R>(entries: Seq<PortfolioCatalogEntry<R>>) -> bool {
    forall|i: int, j: int| 0 <= i < j < entries.len() ==> key_less(#[trigger] entries[i].key, #[trigger] entries[j].key)
}

/// No two entries share a sort key.
pub open spec fn keys_distinct<R>(entries: Seq<PortfolioCatalogEntry<R>>) -> bool {
    forall|i: int, j: int|
        0 <= i < entries.len() && 0 <= j < entries.len() && i != j ==> key_view(#[trigger] entries[i].key)
            != key_view(#[trigger] entries[j].key)
}

/// Sorts entries into listing order by insertion; entries with equal keys keep no particular
/// order.
pub fn sort_entries<R>(entries: Vec<PortfolioCatalogEntry<R>>) -> (sorted: Vec<PortfolioCatalogEntry<R>>)
    ensures
        sorted@.to_multiset() == entries@.to_multiset(),
        keys_nondecreasing(sorted@),
{
    let mut input = entries;
    let mut sorted: Vec<PortfolioCatalogEntry<R>> = Vec::new();
    while input.len() > 0
        invariant
            sorted@.to_multiset().add(input@.to_multiset()) == entries@.to_multiset(),
            keys_nondecreasing(sorted@),
        decreases input.len(),
    {
        let ghost before_input = input@;
        let ghost before_sorted = sorted@;
        let entry = input.pop().unwrap();
        proof {
            assert(before_input =~= input@.push(entry));
        }
        let mut p: usize = 0;
        while p < sorted.len() && !key_before(&entry.key, &sorted[p].key)
            invariant
                p <= sorted@.len(),
                sorted@ == before_sorted,
                forall|q: int| 0 <= q < p ==> !key_less(entry.key, #[trigger] sorted@[q].key),
            decreases sorted.len() - p,
        {
            p = p + 1;
        }
        sorted.insert(p, entry);
        proof {
            let s = sorted@;
            assert(s == before_sorted.insert(p as int, entry));
            assert forall|i: int, j: int| 0 <= i < j < s.len() implies !key_less(
                #[trigger] s[j].key,
                #[trigger] s[i].key,
            ) by {
                if i < p && j == p {
                    assert(!key_less(entry.key, before_sorted[i].key));
                } else if i == p && j > p {
                    if p < before_sorted.len() {
                        assert(key_less(entry.key, before_sorted[p as int].key));
                        lemma_key_order(entry.key, before_sorted[p as int].key, before_sorted[j - 1].key);
                        lemma_key_order(before_sorted[j - 1].key, entry.key, before_sorted[p as int].key);
                        if j - 1 > p {
                            assert(!key_less(before_sorted[j - 1].key, before_sorted[p as int].key));
                        }
                    }
                } else if i < p && j > p {
                    assert(s[i] == before_sorted[i]);
                    assert(s[j] == before_sorted[j - 1]);
                } else if j < p {
                    assert(s[i] == before_sorted[i]);
                    assert(s[j] == before_sorted[j]);
                } else {
                    assert(s[i] == before_sorted[i - 1]);
                    assert(s[j] == before_sorted[j - 1]);
                }
            }
        }
    }
    proof {
        assert(input@ =~= Seq::<PortfolioCatalogEntry<R>>::empty());
        assert(input@.to_multiset() =~= Multiset::empty());
    }
    sorted
}

/// An entry is listed after the cursor, or there is no cursor.
pub open spec fn after_cursor(after: Option<CatalogCursorKey>, key: CatalogCursorKey) -> bool {
    match after {
        Some(cursor) => key_less(cursor, key),
        None => true,
    }
}

/// The entry at `i` remains to be listed after the cursor.
pub open spec fn remaining_at<R>(all: Seq<PortfolioCatalogEntry<R>>, after: Option<CatalogCursorKey>, i: int) -> bool {
    0 <= i < all.len() && after_cursor(after, all[i].key)
}

/// The entry at `p` of a page is one of the remaining entries.
pub open spec fn listed_from<R>(
    all: Seq<PortfolioCatalogEntry<R>>,
    after: Option<CatalogCursorKey>,
    page: Seq<PortfolioCatalogEntry<R>>,
    p: int,
) -> bool {
    exists|i: int| #[trigger] remaining_at(all, after, i) && all[i] == page[p]
}

/// A page of a listing: at most `limit` of the remaining entries, in ascending order, such
/// that every remaining entry left out comes after the last one listed on a full page.
pub open spec fn is_page<R>(
    all: Seq<PortfolioCatalogEntry<R>>,
    after: Option<CatalogCursorKey>,
    limit: nat,
    page: Seq<PortfolioCatalogEntry<R>>,
) -> bool {
    &&& keys_ascending(page)
    &&& page.len() <= limit
    &&& forall|p: int| 0 <= p < page.len() ==> #[trigger] listed_from(all, after, page, p)
    &&& forall|i: int|
        #[trigger] remaining_at(all, after, i) ==> (exists|p: int| 0 <= p < page.len() && page[p] == all[i])
            || (page.len() == limit && key_less(page.last().key, all[i].key))
}

/// Some remaining entry comes after the last entry of a non-empty page.
pub open spec fn more_after<R>(
    all: Seq<PortfolioCatalogEntry<R>>,
    after: Option<CatalogCursorKey>,
    page: Seq<PortfolioCatalogEntry<R>>,
) -> bool {
    page.len() > 0 && exists|i: int| #[trigger] remaining_at(all, after, i) && key_less(page.last().key, all[i].key)
}

/// One page of the portfolio catalog, and the key to resume after when more entries remain.
#[derive(Debug)]
pub struct PortfolioCatalogPageEntries<R> {
    pub entries: Vec<PortfolioCatalogEntry<R>>,
    pub next_key: Option<CatalogCursorKey>,
}

fn copy_key(key: &CatalogCursorKey) -> (copy: CatalogCursorKey)
    ensures
        copy == *key,
{
    CatalogCursorKey {
        book_code: key.book_code.clone(),
        group_path: key.group_path.clone(),
        portfolio_code: key.portfolio_code.clone(),
        version: key.version,
    }
}

/// What one ordering of entries holds, any reordering holds too.
proof fn lemma_member<T>(a: Seq<T>, b: Seq<T>, x: T)
    requires
        a.to_multiset() == b.to_multiset(),
        a.contains(x),
    ensures
        b.contains(x),
{
    assert(a.to_multiset().count(x) > 0);
    assert(b.to_multiset().count(x) > 0);
}

/// Distinct sort keys survive reordering.
proof fn lemma_distinct_keys_permutation<R>(a: Seq<PortfolioCatalogEntry<R>>, b: Seq<PortfolioCatalogEntry<R>>)
    requires
        a.to_multiset() == b.to_multiset(),
        keys_distinct(a),
    ensures
        keys_distinct(b),
{
    assert(a.no_duplicates()) by {
        assert forall|x: int, y: int| 0 <= x < a.len() && 0 <= y < a.len() && x != y implies a[x] != a[y] by {
            assert(key_view(a[x].key) != key_view(a[y].key));
        }
    }
    a.lemma_multiset_has_no_duplicates();
    b.lemma_multiset_has_no_duplicates_conv();
    assert forall|x: int, y: int|
        0 <= x < b.len() && 0 <= y < b.len() && x != y implies key_view(#[trigger] b[x].key) != key_view(
        #[trigger] b[y].key,
    ) by {
        assert(b.contains(b[x]));
        assert(b.contains(b[y]));
        lemma_member(b, a, b[x]);
        lemma_member(b, a, b[y]);
        let p = choose|p: int| 0 <= p < a.len() && a[p] == b[x];
        let q = choose|q: int| 0 <= q < a.len() && a[q] == b[y];
        assert(b[x] != b[y]);
    }
}

proof fn lemma_strict_from_adjacent<R>(s: Seq<PortfolioCatalogEntry<R>>)
    requires
        keys_nondecreasing(s),
        forall|i: int| 0 < i < s.len() ==> key_view(#[trigger] s[i].key) != key_view(s[i - 1].key),
    ensures
        keys_ascending(s),
{
    assert forall|i: int, j: int| 0 <= i < j < s.len() implies key_less(#[trigger] s[i].key, #[trigger] s[j].key) by {
        lemma_key_order(s[i].key, s[j].key, s[i].key);
        if key_view(s[i].key) == key_view(s[j].key) {
            assert(key_view(s[i + 1].key) != key_view(s[i].key));
            lemma_key_order(s[i].key, s[i + 1].key, s[j].key);
            assert(!key_less(s[i + 1].key, s[i].key));
            assert(!key_less(s[j].key, s[i + 1].key));
            lemma_key_order(s[i + 1].key, s[j].key, s[i].key);
        }
    }
}

proof fn lemma_ascending_distinct<R>(s: Seq<PortfolioCatalogEntry<R>>)
    requires
        keys_ascending(s),
    ensures
        keys_distinct(s),
{
    assert forall|i: int, j: int|
        0 <= i < s.len() && 0 <= j < s.len() && i != j implies key_view(#[trigger] s[i].key) != key_view(
        #[trigger] s[j].key,
    ) by {
        if i < j {
            lemma_key_order(s[i].key, s[j].key, s[i].key);
            if key_view(s[i].key) == key_view(s[j].key) {
                assert(key_less(s[i].key, s[j].key));
                assert(key_less(s[i].key, s[i].key));
            }
        } else {
            lemma_key_order(s[j].key, s[i].key, s[j].key);
            if key_view(s[i].key) == key_view(s[j].key) {
                assert(key_less(s[j].key, s[j].key));
            }
        }
    }
}

fn adjacent_keys_differ<R>(sorted: &Vec<PortfolioCatalogEntry<R>>) -> (differ: bool)
    ensures
        differ <==> forall|k: int| 0 < k < sorted@.len() ==> key_view(#[trigger] sorted@[k].key) != key_view(sorted@[k - 1].key),
{
    let mut i: usize = 1;
    while i < sorted.len()
        invariant
            1 <= i,
            forall|k: int| 0 < k < i && k < sorted@.len() ==> key_view(#[trigger] sorted@[k].key) != key_view(sorted@[k - 1].key),
        decreases sorted.len() - i,
    {
        if same_key(&sorted[i - 1].key, &sorted[i].key) {
            return false;
        }
        i = i + 1;
    }
    true
}

/// Lists one page of catalog entries after an optional cursor: the entries are sorted into
/// listing order, fail with a state conflict when two share a sort key, and the first `limit`
/// entries after the cursor form the page; the resume key is the page's last key when more
/// entries remain.
pub fn catalog_page<R>(
    entries: Vec<PortfolioCatalogEntry<R>>,
    after: Option<CatalogCursorKey>,
    limit: u32,
) -> (result: ApplicationResult<PortfolioCatalogPageEntries<R>>)
    requires
        limit >= 1,
    ensures
        result is Ok <==> keys_distinct(entries@),
        result matches Ok(page) ==> {
            &&& is_page(entries@, after, limit as nat, page.entries@)
            &&& (page.next_key is Some <==> more_after(entries@, after, page.entries@))
            &&& (page.next_key matches Some(key) ==> key == page.entries@.last().key)
        },
        result matches Err(e) ==> e == failure(ApplicationErrorCategory::StateConflict),
{
    let ghost all = entries@;
    let sorted = sort_entries(entries);
    let ghost s = sorted@;
    if !adjacent_keys_differ(&sorted) {
        proof {
            if keys_distinct(all) {
                lemma_distinct_keys_permutation(all, s);
                let k = choose|k: int| 0 < k < s.len() && key_view(#[trigger] s[k].key) == key_view(s[k - 1].key);
                assert(key_view(s[k].key) != key_view(s[k - 1].key));
            }
        }
        return Err(state_conflict());
    }
    proof {
        lemma_strict_from_adjacent(s);
        lemma_ascending_distinct(s);
        lemma_distinct_keys_permutation(s, all);
    }
    let total = sorted.len();
    let mut rest = sorted;
    let mut start: usize = 0;
    while rest.len() > 0 && !after_key(&after, &rest[0].key)
        invariant
            start <= s.len(),
            s.len() == total,
            s.len() == rest@.len() + start,
            rest@ == s.subrange(start as int, s.len() as int),
            forall|k: int| 0 <= k < start ==> !after_cursor(after, #[trigger] s[k].key),
        decreases rest.len(),
    {
        rest.remove(0);
        start = start + 1;
    }
    let mut page: Vec<PortfolioCatalogEntry<R>> = Vec::new();
    while rest.len() > 0 && page.len() < limit as usize
        invariant
            start + page@.len() <= s.len(),
            rest@ == s.subrange(start + page@.len(), s.len() as int),
            page@ == s.subrange(start as int, start + page@.len()),
            page@.len() <= limit,
        decreases rest.len(),
    {
        let entry = rest.remove(0);
        page.push(entry);
    }
    let next_key = if rest.len() > 0 {
        Some(copy_key(&page[page.len() - 1].key))
    } else {
        None
    };
    proof {
        lemma_after_all(s, after, start as int);
        let more = rest@.len() > 0;
        assert(page_taken(all, s, after, limit as nat, start as int, page@, more));
        lemma_page_members(all, s, after, limit as nat, start as int, page@, more);
        lemma_page_covers(all, s, after, limit as nat, start as int, page@, more);
        lemma_page_more(all, s, after, limit as nat, start as int, page@, more);
    }
    Ok(PortfolioCatalogPageEntries { entries: page, next_key })
}

/// The facts a page is computed from: the sorted entries, where the entries after the cursor
/// begin, and the page taken from there.
pub open spec fn page_taken<R>(
    all: Seq<PortfolioCatalogEntry<R>>,
    s: Seq<PortfolioCatalogEntry<R>>,
    after: Option<CatalogCursorKey>,
    limit: nat,
    start: int,
    page: Seq<PortfolioCatalogEntry<R>>,
    more: bool,
) -> bool {
    &&& all.to_multiset() == s.to_multiset()
    &&& keys_ascending(s)
    &&& limit >= 1
    &&& 0 <= start <= s.len()
    &&& forall|k: int| 0 <= k < start ==> !after_cursor(after, #[trigger] s[k].key)
    &&& forall|k: int| start <= k < s.len() ==> after_cursor(after, #[trigger] s[k].key)
    &&& start + page.len() <= s.len()
    &&& page == s.subrange(start, start + page.len())
    &&& page.len() <= limit
    &&& more == (start + page.len() < s.len())
    &&& (more ==> page.len() == limit)
}

proof fn lemma_after_all<R>(s: Seq<PortfolioCatalogEntry<R>>, after: Option<CatalogCursorKey>, start: int)
    requires
        keys_ascending(s),
        0 <= start,
        start < s.len() ==> after_cursor(after, s[start].key),
    ensures
        forall|k: int| start <= k < s.len() ==> after_cursor(after, #[trigger] s[k].key),
{
    assert forall|k: int| start <= k < s.len() implies after_cursor(after, #[trigger] s[k].key) by {
        if k > start {
            match after {
                Some(cursor) => {
                    lemma_key_order(cursor, s[start].key, s[k].key);
                },
                None => {},
            }
        }
    }
}

proof fn lemma_page_members<R>(
    all: Seq<PortfolioCatalogEntry<R>>,
    s: Seq<PortfolioCatalogEntry<R>>,
    after: Option<CatalogCursorKey>,
    limit: nat,
    start: int,
    page: Seq<PortfolioCatalogEntry<R>>,
    more: bool,
)
    requires
        page_taken(all, s, after, limit, start, page, more),
    ensures
        forall|p: int| 0 <= p < page.len() ==> #[trigger] listed_from(all, after, page, p),
{
    assert forall|p: int| 0 <= p < page.len() implies #[trigger] listed_from(all, after, page, p) by {
        assert(page[p] == s[start + p]);
        assert(s.contains(s[start + p]));
        lemma_member(s, all, page[p]);
        let i = choose|i: int| 0 <= i < all.len() && all[i] == page[p];
        assert(after_cursor(after, s[start + p].key));
        assert(remaining_at(all, after, i));
    }
}

proof fn lemma_page_covers<R>(
    all: Seq<PortfolioCatalogEntry<R>>,
    s: Seq<PortfolioCatalogEntry<R>>,
    after: Option<CatalogCursorKey>,
    limit: nat,
    start: int,
    page: Seq<PortfolioCatalogEntry<R>>,
    more: bool,
)
    requires
        page_taken(all, s, after, limit, start, page, more),
    ensures
        forall|i: int|
            #[trigger] remaining_at(all, after, i) ==> (exists|p: int| 0 <= p < page.len() && page[p] == all[i])
                || (page.len() == limit && key_less(page.last().key, all[i].key)),
{
    let n = page.len() as int;
    assert forall|i: int| #[trigger] remaining_at(all, after, i) implies (exists|p: int|
        0 <= p < page.len() && page[p] == all[i]) || (page.len() == limit && key_less(
        page.last().key,
        all[i].key,
    )) by {
        assert(all.contains(all[i]));
        lemma_member(all, s, all[i]);
        let m = choose|m: int| 0 <= m < s.len() && s[m] == all[i];
        if m < start {
            assert(!after_cursor(after, s[m].key));
        } else if m < start + n {
            assert(page[m - start] == all[i]);
        } else {
            assert(page.last() == s[start + n - 1]);
            if m > start + n - 1 {
                assert(key_less(s[start + n - 1].key, s[m].key));
            }
        }
    }
}

proof fn lemma_page_more<R>(
    all: Seq<PortfolioCatalogEntry<R>>,
    s: Seq<PortfolioCatalogEntry<R>>,
    after: Option<CatalogCursorKey>,
    limit: nat,
    start: int,
    page: Seq<PortfolioCatalogEntry<R>>,
    more: bool,
)
    requires
        page_taken(all, s, after, limit, start, page, more),
    ensures
        more <==> more_after(all, after, page),
{
    let n = page.len() as int;
    if more {
        assert(s.contains(s[start + n]));
        lemma_member(s, all, s[start + n]);
        let i = choose|i: int| 0 <= i < all.len() && all[i] == s[start + n];
        assert(after_cursor(after, s[start + n].key));
        assert(remaining_at(all, after, i));
        assert(page.last() == s[start + n - 1]);
        assert(key_less(s[start + n - 1].key, s[start + n].key));
        assert(more_after(all, after, page));
    }
    if more_after(all, after, page) {
        let i = choose|i: int| #[trigger] remaining_at(all, after, i) && key_less(page.last().key, all[i].key);
        assert(all.contains(all[i]));
        lemma_member(all, s, all[i]);
        let m = choose|m: int| 0 <= m < s.len() && s[m] == all[i];
        assert(page.last() == s[start + n - 1]);
        if m < start {
            assert(!after_cursor(after, s[m].key));
        } else if m < start + n {
            if m < start + n - 1 {
                assert(key_less(s[m].key, s[start + n - 1].key));
                lemma_key_order(s[m].key, s[start + n - 1].key, s[m].key);
            } else {
                lemma_key_order(s[m].key, s[m].key, s[m].key);
            }
        }
    }
}

fn after_key(after: &Option<CatalogCursorKey>, key: &CatalogCursorKey) -> (listed: bool)
    ensures
        listed == after_cursor(*after, *key),
{
    match after {
        Some(cursor) => key_before(cursor, key),
        None => true,
    }
}

/// Some entry of the page is `entry`.
pub open spec fn on_page<R>(page: Seq<PortfolioCatalogEntry<R>>, entry: PortfolioCatalogEntry<R>) -> bool {
    exists|p: int| 0 <= p < page.len() && page[p] == entry
}

/// Resuming after the last key of a page lists exactly the rest: every entry that remained
/// after the cursor is either on the page or remains after the page's last key, and no entry
/// is both.
pub proof fn law_resume_lists_the_rest<R>(
    all: Seq<PortfolioCatalogEntry<R>>,
    after: Option<CatalogCursorKey>,
    limit: nat,
    page: Seq<PortfolioCatalogEntry<R>>,
)
    requires
        keys_distinct(all),
        is_page(all, after, limit, page),
        page.len() > 0,
    ensures
        forall|i: int|
            0 <= i < all.len() ==> (#[trigger] remaining_at(all, after, i) <==> (on_page(page, all[i])
                || remaining_at(all, Some(page.last().key), i))),
        forall|i: int|
            0 <= i < all.len() ==> !(on_page(page, #[trigger] all[i]) && remaining_at(
                all,
                Some(page.last().key),
                i,
            )),
{
    let last = page.last();
    assert(listed_from(all, after, page, page.len() - 1));
    let l = choose|l: int| #[trigger] remaining_at(all, after, l) && all[l] == page[page.len() - 1];
    assert forall|i: int| 0 <= i < all.len() implies (#[trigger] remaining_at(all, after, i) <==> (on_page(
        page,
        all[i],
    ) || remaining_at(all, Some(last.key), i))) && !(on_page(page, all[i]) && remaining_at(
        all,
        Some(last.key),
        i,
    )) by {
        if remaining_at(all, after, i) {
            if !(exists|p: int| 0 <= p < page.len() && page[p] == all[i]) {
                assert(page.len() == limit && key_less(last.key, all[i].key));
            }
        }
        if on_page(page, all[i]) {
            let p = choose|p: int| 0 <= p < page.len() && page[p] == all[i];
            assert(listed_from(all, after, page, p));
            let j = choose|j: int| #[trigger] remaining_at(all, after, j) && all[j] == page[p];
            if j != i {
                assert(key_view(all[j].key) != key_view(all[i].key));
            }
            if p < page.len() - 1 {
                assert(key_less(page[p].key, last.key));
                lemma_key_order(page[p].key, last.key, page[p].key);
            } else {
                lemma_key_order(last.key, last.key, last.key);
            }
        }
        if remaining_at(all, Some(last.key), i) {
            match after {
                Some(cursor) => {
                    assert(after_cursor(after, all[l].key));
                    lemma_key_order(cursor, last.key, all[i].key);
                },
                None => {},
            }
        }
    }
    assert forall|i: int| 0 <= i < all.len() implies !(on_page(page, #[trigger] all[i]) && remaining_at(
        all,
        Some(last.key),
        i,
    )) by {
        if on_page(page, all[i]) {
            let p = choose|p: int| 0 <= p < page.len() && page[p] == all[i];
            if p < page.len() - 1 {
                assert(key_less(page[p].key, last.key));
                lemma_key_order(page[p].key, last.key, page[p].key);
            } else {
                lemma_key_order(last.key, last.key, last.key);
            }
        }
    }
}

} // verus!
