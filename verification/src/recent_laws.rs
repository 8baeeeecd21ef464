//! What every update of the recent-files list keeps, and how the menu
//! reflects the list.

use vstd::prelude::*;
use crate::recent::{
    menu_entries, names_path, read_as, recent_after_push, stored_as, toml_text_of, without_path,
    MenuEntry, RecentEntry, RECENT_FILES_LIMIT,
};

verus! {

/// No two items of `s` are the same path.
pub open spec fn distinct_paths(s: Seq<RecentEntry>) -> bool {
    forall|i: int, j: int|
        0 <= i < s.len() && 0 <= j < s.len() && i != j ==> match (#[trigger] s[i], #[trigger] s[j]) {
            (RecentEntry::Path(a), RecentEntry::Path(b)) => a@ != b@,
            _ => true,
        }
}

proof fn lemma_without_path_excludes(s: Seq<RecentEntry>, p: Seq<char>)
    ensures
        forall|i: int| 0 <= i < without_path(s, p).len() ==> !names_path(#[trigger] without_path(s, p)[i], p),
        without_path(s, p).len() <= s.len(),
        forall|i: int| 0 <= i < without_path(s, p).len() ==> s.contains(#[trigger] without_path(s, p)[i]),
{
    broadcast use vstd::seq_lib::group_filter_ensures;

    let w = without_path(s, p);
    assert forall|i: int| 0 <= i < w.len() implies s.contains(#[trigger] w[i]) by {
        assert(w.contains(w[i]));
        s.lemma_filter_contains_rev(|e: RecentEntry| !names_path(e, p), w[i]);
    }
}

proof fn lemma_filter_all_kept(s: Seq<RecentEntry>, pred: spec_fn(RecentEntry) -> bool)
    requires
        forall|i: int| 0 <= i < s.len() ==> pred(#[trigger] s[i]),
    ensures
        s.filter(pred) == s,
    decreases s.len(),
{
    reveal_with_fuel(Seq::filter, 1);
    if s.len() > 0 {
        lemma_filter_all_kept(s.drop_last(), pred);
        assert(s.drop_last().push(s.last()) =~= s);
    }
}

/// After a file is opened or saved its path heads the list, appears nowhere
/// else in it, and the list holds at most `RECENT_FILES_LIMIT` items: the
/// path and then the older items that are not it, in their order.
pub proof fn lemma_push_recent_shape(s: Seq<RecentEntry>, path: String)
    ensures
        recent_after_push(s, path).len() >= 1,
        recent_after_push(s, path)[0] == RecentEntry::Path(path),
        recent_after_push(s, path).len() <= RECENT_FILES_LIMIT,
        recent_after_push(s, path).len() == if 1 + without_path(s, path@).len()
            <= RECENT_FILES_LIMIT {
            1 + without_path(s, path@).len()
        } else {
            RECENT_FILES_LIMIT as nat
        },
        forall|i: int|
            1 <= i < recent_after_push(s, path).len() ==> !names_path(
                #[trigger] recent_after_push(s, path)[i],
                path@,
            ) && s.contains(recent_after_push(s, path)[i]),
{
    lemma_without_path_excludes(s, path@);
    let w = without_path(s, path@);
    let r = recent_after_push(s, path);
    assert forall|i: int| 1 <= i < r.len() implies !names_path(#[trigger] r[i], path@) && s.contains(
        r[i],
    ) by {
        assert(r[i] == w[i - 1]);
    }
}

/// Opening or saving the same file twice in a row leaves the list as the
/// first time did.
pub proof fn lemma_push_recent_idempotent(s: Seq<RecentEntry>, path: String)
    ensures
        recent_after_push(recent_after_push(s, path), path) == recent_after_push(s, path),
{
    let p = path@;
    let pred = |e: RecentEntry| !names_path(e, p);
    let w = without_path(s, p);
    let t = recent_after_push(s, path);
    lemma_without_path_excludes(s, p);
    // the items of t after its head are w's first items, none of them the path
    let k = t.len() - 1;
    assert(t.skip(1) =~= w.take(k));
    assert(seq![RecentEntry::Path(path)] + w.take(k) =~= t);
    assert forall|i: int| 0 <= i < w.take(k).len() implies pred(#[trigger] w.take(k)[i]) by {
        assert(w.take(k)[i] == w[i]);
    }
    lemma_filter_all_kept(w.take(k), pred);
    broadcast use Seq::filter_distributes_over_add;
    assert(seq![RecentEntry::Path(path)].filter(pred) =~= Seq::<RecentEntry>::empty()) by {
        reveal_with_fuel(Seq::filter, 2);
        assert(seq![RecentEntry::Path(path)].drop_last() =~= Seq::<RecentEntry>::empty());
    }
    assert(without_path(t, p) == seq![RecentEntry::Path(path)].filter(pred) + w.take(k).filter(
        pred,
    ));
    assert(without_path(t, p) =~= w.take(k));
    assert(recent_after_push(t, path) =~= t);
}

proof fn lemma_filter_distinct(s: Seq<RecentEntry>, pred: spec_fn(RecentEntry) -> bool)
    requires
        distinct_paths(s),
    ensures
        distinct_paths(s.filter(pred)),
    decreases s.len(),
{
    reveal_with_fuel(Seq::filter, 1);
    if s.len() > 0 {
        let d = s.drop_last();
        assert forall|i: int, j: int|
            0 <= i < d.len() && 0 <= j < d.len() && i != j implies match (#[trigger] d[i], #[trigger] d[j]) {
            (RecentEntry::Path(a), RecentEntry::Path(b)) => a@ != b@,
            _ => true,
        } by {
            assert(d[i] == s[i] && d[j] == s[j]);
        }
        lemma_filter_distinct(d, pred);
        let f = d.filter(pred);
        broadcast use vstd::seq_lib::group_filter_ensures;

        assert forall|k: int| 0 <= k < f.len() implies d.contains(#[trigger] f[k]) by {
            assert(f.contains(f[k]));
            d.lemma_filter_contains_rev(pred, f[k]);
        }
        if pred(s.last()) {
            let g = f.push(s.last());
            assert forall|i: int, j: int|
                0 <= i < g.len() && 0 <= j < g.len() && i != j implies match (#[trigger] g[i], #[trigger] g[j]) {
                (RecentEntry::Path(a), RecentEntry::Path(b)) => a@ != b@,
                _ => true,
            } by {
                if i == f.len() {
                    assert(d.contains(g[j]));
                    let jj = choose|jj: int| 0 <= jj < d.len() && d[jj] == g[j];
                    assert(s[jj] == g[j]);
                    assert(s[s.len() - 1] == g[i]);
                } else if j == f.len() {
                    assert(d.contains(g[i]));
                    let ii = choose|ii: int| 0 <= ii < d.len() && d[ii] == g[i];
                    assert(s[ii] == g[i]);
                    assert(s[s.len() - 1] == g[j]);
                } else {
                    assert(g[i] == f[i] && g[j] == f[j]);
                }
            }
        }
    }
}

/// Opening or saving a file keeps a list free of repeated paths free of them.
pub proof fn lemma_push_recent_keeps_distinct(s: Seq<RecentEntry>, path: String)
    requires
        distinct_paths(s),
    ensures
        distinct_paths(recent_after_push(s, path)),
{
    let p = path@;
    let pred = |e: RecentEntry| !names_path(e, p);
    let w = without_path(s, p);
    lemma_filter_distinct(s, pred);
    lemma_without_path_excludes(s, p);
    let all = seq![RecentEntry::Path(path)] + w;
    let r = recent_after_push(s, path);
    assert forall|i: int, j: int|
        0 <= i < r.len() && 0 <= j < r.len() && i != j implies match (#[trigger] r[i], #[trigger] r[j]) {
        (RecentEntry::Path(a), RecentEntry::Path(b)) => a@ != b@,
        _ => true,
    } by {
        assert(r[i] == all[i] && r[j] == all[j]);
        if i == 0 {
            assert(r[j] == w[j - 1]);
            assert(!names_path(w[j - 1], p));
        } else if j == 0 {
            assert(r[i] == w[i - 1]);
            assert(!names_path(w[i - 1], p));
        } else {
            assert(r[i] == w[i - 1] && r[j] == w[j - 1]);
        }
    }
}

/// The menu holds one item per path of the stored list, in the list's order:
/// each item sits at the index of its path in the list, and every path of the
/// list has its item.
pub proof fn lemma_menu_mirrors_list(l: Seq<RecentEntry>)
    requires
        l.len() <= usize::MAX,
    ensures
        forall|k: int|
            0 <= k < menu_entries(l).len() ==> {
                let e = #[trigger] menu_entries(l)[k];
                &&& e.position < l.len()
                &&& l[e.position as int] == RecentEntry::Path(e.path)
            },
        forall|k1: int, k2: int|
            0 <= k1 < k2 < menu_entries(l).len() ==> #[trigger] menu_entries(l)[k1].position
                < #[trigger] menu_entries(l)[k2].position,
        forall|i: int|
            0 <= i < l.len() && (#[trigger] l[i] is Path) ==> exists|k: int|
                0 <= k < menu_entries(l).len() && menu_entries(l)[k].position == i,
    decreases l.len(),
{
    if l.len() > 0 {
        let d = l.drop_last();
        lemma_menu_mirrors_list(d);
        let m = menu_entries(d);
        assert forall|i: int| 0 <= i < d.len() implies l[i] == #[trigger] d[i] by {}
        match l.last() {
            RecentEntry::Path(s) => {
                let e = MenuEntry { position: (l.len() - 1) as usize, path: s };
                let mm = m.push(e);
                assert(menu_entries(l) == mm);
                assert forall|i: int| 0 <= i < l.len() && (#[trigger] l[i] is Path) implies exists|
                    k: int,
                | 0 <= k < mm.len() && mm[k].position == i by {
                    if i == l.len() - 1 {
                        assert(mm[m.len() as int].position == i);
                    } else {
                        assert(d[i] is Path);
                        let k = choose|k: int| 0 <= k < m.len() && m[k].position == i;
                        assert(mm[k] == m[k]);
                    }
                }
                assert forall|k1: int, k2: int|
                    0 <= k1 < k2 < mm.len() implies #[trigger] mm[k1].position
                        < #[trigger] mm[k2].position by {
                    if k2 < m.len() {
                        assert(mm[k1] == m[k1] && mm[k2] == m[k2]);
                    } else {
                        assert(mm[k1] == m[k1]);
                    }
                }
            },
            RecentEntry::Other(_) => {
                assert forall|i: int| 0 <= i < l.len() && (#[trigger] l[i] is Path) implies exists|
                    k: int,
                | 0 <= k < m.len() && m[k].position == i by {
                    assert(d[i] is Path);
                }
            },
        }
    }
}

/// No two strings among the TOML values `items` have the same text.
pub open spec fn distinct_texts(items: Seq<toml::Value>) -> bool {
    forall|i: int, j: int|
        0 <= i < items.len() && 0 <= j < items.len() && i != j && toml_text_of(#[trigger] items[i])
            is Some ==> toml_text_of(items[i]) != toml_text_of(#[trigger] items[j])
}

/// Reading a stored array, opening or saving `path` and storing the list
/// again gives an array whose first item is the string `path`, in which no
/// other item is that string, which holds at most `RECENT_FILES_LIMIT` items,
/// and which has no two strings alike when the array read had none.
pub proof fn lemma_stored_list_after_open(
    old_items: Seq<toml::Value>,
    read: Seq<RecentEntry>,
    path: String,
    new_items: Seq<toml::Value>,
)
    requires
        read.len() == old_items.len(),
        forall|i: int| 0 <= i < old_items.len() ==> read_as(#[trigger] old_items[i], read[i]),
        new_items.len() == recent_after_push(read, path).len(),
        forall|i: int|
            0 <= i < new_items.len() ==> stored_as(
                recent_after_push(read, path)[i],
                #[trigger] new_items[i],
            ),
    ensures
        new_items.len() >= 1,
        toml_text_of(new_items[0]) == Some(path@),
        new_items.len() <= RECENT_FILES_LIMIT,
        forall|i: int| 1 <= i < new_items.len() ==> toml_text_of(#[trigger] new_items[i]) != Some(path@),
        distinct_texts(old_items) ==> distinct_texts(new_items),
{
    let r = recent_after_push(read, path);
    lemma_push_recent_shape(read, path);
    assert(stored_as(r[0], new_items[0]));
    // an item of the new list is an item that was read
    assert forall|i: int| 1 <= i < new_items.len() implies toml_text_of(#[trigger] new_items[i])
        != Some(path@) by {
        assert(stored_as(r[i], new_items[i]));
        assert(!names_path(r[i], path@) && read.contains(r[i]));
        if let RecentEntry::Other(_) = r[i] {
            let j = choose|j: int| 0 <= j < read.len() && read[j] == r[i];
            assert(read_as(old_items[j], read[j]));
        }
    }
    if distinct_texts(old_items) {
        assert forall|i: int, j: int|
            0 <= i < read.len() && 0 <= j < read.len() && i != j implies match (
                #[trigger] read[i],
                #[trigger] read[j],
            ) {
                (RecentEntry::Path(a), RecentEntry::Path(b)) => a@ != b@,
                _ => true,
            } by {
            assert(read_as(old_items[i], read[i]) && read_as(old_items[j], read[j]));
        }
        assert(distinct_paths(read));
        lemma_push_recent_keeps_distinct(read, path);
        assert forall|i: int, j: int|
            0 <= i < new_items.len() && 0 <= j < new_items.len() && i != j && toml_text_of(
                #[trigger] new_items[i],
            ) is Some implies toml_text_of(new_items[i]) != toml_text_of(
                #[trigger] new_items[j],
            ) by {
            assert(stored_as(r[i], new_items[i]) && stored_as(r[j], new_items[j]));
            assert(match (r[i], r[j]) {
                (RecentEntry::Path(a), RecentEntry::Path(b)) => a@ != b@,
                _ => true,
            });
            if let RecentEntry::Other(_) = r[i] {
                let k = choose|k: int| 0 <= k < read.len() && read[k] == r[i];
                assert(read_as(old_items[k], read[k]));
            }
            if let RecentEntry::Other(_) = r[j] {
                assert(read.contains(r[j]) || j == 0);
                if j != 0 {
                    let k = choose|k: int| 0 <= k < read.len() && read[k] == r[j];
                    assert(read_as(old_items[k], read[k]));
                }
            }
        }
    }
}

/// The menu built from a stored array has one item per string of the array,
/// in the array's order: each item sits at its string's index and opens the
/// string's text, and every string of the array has its item.
pub proof fn lemma_menu_of_stored_array(items: Seq<toml::Value>, read: Seq<RecentEntry>)
    requires
        read.len() == items.len(),
        items.len() <= usize::MAX,
        forall|i: int| 0 <= i < items.len() ==> read_as(#[trigger] items[i], read[i]),
    ensures
        forall|k: int|
            0 <= k < menu_entries(read).len() ==> {
                let e = #[trigger] menu_entries(read)[k];
                &&& e.position < items.len()
                &&& toml_text_of(items[e.position as int]) == Some(e.path@)
            },
        forall|k1: int, k2: int|
            0 <= k1 < k2 < menu_entries(read).len() ==> #[trigger] menu_entries(read)[k1].position
                < #[trigger] menu_entries(read)[k2].position,
        forall|i: int|
            0 <= i < items.len() && toml_text_of(#[trigger] items[i]) is Some ==> exists|k: int|
                0 <= k < menu_entries(read).len() && menu_entries(read)[k].position == i,
{
    lemma_menu_mirrors_list(read);
    let m = menu_entries(read);
    assert forall|k: int| 0 <= k < m.len() implies {
        let e = #[trigger] m[k];
        &&& e.position < items.len()
        &&& toml_text_of(items[e.position as int]) == Some(e.path@)
    } by {
        let e = m[k];
        assert(read[e.position as int] == RecentEntry::Path(e.path));
        assert(read_as(items[e.position as int], read[e.position as int]));
    }
    assert forall|i: int| 0 <= i < items.len() && toml_text_of(#[trigger] items[i]) is Some implies exists|
        k: int,
    | 0 <= k < m.len() && m[k].position == i by {
        assert(read_as(items[i], read[i]));
        assert(read[i] is Path);
    }
}

/// The text of the string that stores `e`: the path for a path, the value's
/// own text, if it is a string, for anything else.
pub open spec fn entry_text(e: RecentEntry) -> Option<Seq<char>> {
    match e {
        RecentEntry::Path(s) => Some(s@),
        RecentEntry::Other(w) => toml_text_of(w),
    }
}

/// The texts of the TOML values `items`, `None` for a value that is not a
/// string.
pub open spec fn texts_of(items: Seq<toml::Value>) -> Seq<Option<Seq<char>>> {
    items.map_values(|v: toml::Value| toml_text_of(v))
}

/// The texts of a stored recent-files array after `path` is opened or saved:
/// the path, then the old texts that are not the path, in their order, cut to
/// `RECENT_FILES_LIMIT`.
pub open spec fn texts_after_push(old: Seq<Option<Seq<char>>>, path: Seq<char>) -> Seq<
    Option<Seq<char>>,
> {
    let all = seq![Some(path)] + old.filter(|t: Option<Seq<char>>| t != Some(path));
    if all.len() <= RECENT_FILES_LIMIT {
        all
    } else {
        all.take(RECENT_FILES_LIMIT as int)
    }
}

proof fn lemma_filter_map_commute(
    s: Seq<RecentEntry>,
    p: Seq<char>,
)
    requires
        forall|i: int| 0 <= i < s.len() ==> (names_path(#[trigger] s[i], p) <==> entry_text(s[i]) == Some(p)),
    ensures
        without_path(s, p).map_values(|e: RecentEntry| entry_text(e)) == s.map_values(
            |e: RecentEntry| entry_text(e),
        ).filter(|t: Option<Seq<char>>| t != Some(p)),
    decreases s.len(),
{
    let pe = |e: RecentEntry| !names_path(e, p);
    let pt = |t: Option<Seq<char>>| t != Some(p);
    let f = |e: RecentEntry| entry_text(e);
    reveal_with_fuel(Seq::filter, 1);
    if s.len() == 0 {
        assert(s.filter(pe) =~= Seq::<RecentEntry>::empty());
        assert(s.map_values(f) =~= Seq::<Option<Seq<char>>>::empty());
        assert(s.map_values(f).filter(pt) =~= Seq::<Option<Seq<char>>>::empty());
        assert(s.filter(pe).map_values(f) =~= Seq::<Option<Seq<char>>>::empty());
    } else {
        let d = s.drop_last();
        assert forall|i: int| 0 <= i < d.len() implies (names_path(#[trigger] d[i], p) <==> entry_text(
            d[i],
        ) == Some(p)) by {
            assert(d[i] == s[i]);
        }
        lemma_filter_map_commute(d, p);
        assert(s.map_values(f).drop_last() =~= d.map_values(f));
        assert(s.map_values(f).last() == f(s.last()));
        if pe(s.last()) {
            assert(s.filter(pe).map_values(f) =~= d.filter(pe).map_values(f).push(f(s.last())));
        } else {
            assert(s.filter(pe).map_values(f) =~= d.filter(pe).map_values(f));
        }
    }
}

/// Reading a stored array, opening or saving `path` and storing the list
/// again gives, string by string, the path followed by the old array's items
/// that are not the path, in their order, cut to `RECENT_FILES_LIMIT`; an
/// array that held only strings still holds only strings.
pub proof fn lemma_stored_texts_after_open(
    old_items: Seq<toml::Value>,
    read: Seq<RecentEntry>,
    path: String,
    new_items: Seq<toml::Value>,
)
    requires
        read.len() == old_items.len(),
        forall|i: int| 0 <= i < old_items.len() ==> read_as(#[trigger] old_items[i], read[i]),
        new_items.len() == recent_after_push(read, path).len(),
        forall|i: int|
            0 <= i < new_items.len() ==> stored_as(
                recent_after_push(read, path)[i],
                #[trigger] new_items[i],
            ),
    ensures
        texts_of(new_items) == texts_after_push(texts_of(old_items), path@),
        (forall|i: int| 0 <= i < old_items.len() ==> (#[trigger] toml_text_of(old_items[i])) is Some)
            ==> (forall|i: int|
            0 <= i < new_items.len() ==> (#[trigger] toml_text_of(new_items[i])) is Some),
{
    let p = path@;
    let f = |e: RecentEntry| entry_text(e);
    let r = recent_after_push(read, path);
    let w = without_path(read, p);
    assert forall|i: int| 0 <= i < read.len() implies (names_path(#[trigger] read[i], p)
        <==> entry_text(read[i]) == Some(p)) by {
        assert(read_as(old_items[i], read[i]));
    }
    lemma_filter_map_commute(read, p);
    assert(read.map_values(f) =~= texts_of(old_items)) by {
        assert forall|i: int| 0 <= i < read.len() implies read.map_values(f)[i] == texts_of(
            old_items,
        )[i] by {
            assert(read_as(old_items[i], read[i]));
        }
    }
    let all = seq![RecentEntry::Path(path)] + w;
    assert(all.map_values(f) =~= seq![Some(p)] + w.map_values(f));
    assert(texts_of(new_items) =~= r.map_values(f)) by {
        assert forall|i: int| 0 <= i < new_items.len() implies texts_of(new_items)[i]
            == r.map_values(f)[i] by {
            assert(stored_as(r[i], new_items[i]));
        }
    }
    assert(r.map_values(f) =~= texts_after_push(texts_of(old_items), p));
    if forall|i: int| 0 <= i < old_items.len() ==> (#[trigger] toml_text_of(old_items[i])) is Some {
        assert forall|i: int| 0 <= i < new_items.len() implies (#[trigger] toml_text_of(
            new_items[i],
        )) is Some by {
            assert(stored_as(r[i], new_items[i]));
            if let RecentEntry::Other(_) = r[i] {
                lemma_push_recent_shape(read, path);
                assert(read.contains(r[i]));
                let k = choose|k: int| 0 <= k < read.len() && read[k] == r[i];
                assert(read_as(old_items[k], read[k]));
                assert(toml_text_of(old_items[k]) is Some);
            }
        }
    }
}

} // verus!
