//! The list of recently opened or saved files, kept in the configuration
//! under one field, newest first.

use vstd::prelude::*;

verus! {

/// The configuration field that holds the list.
pub const RECENT_FILES_FIELD: &'static str = "recent_files";

/// How many files the list keeps at most.
pub const RECENT_FILES_LIMIT: usize = 15;

/// One item of the stored list: a file path, or a value of another kind that
/// the list happens to hold and that is kept as it is.
pub enum RecentEntry {
    Path(String),
    Other(toml::Value),
}

/// What the configuration holds under the list's field.
pub enum RecentFiles {
    /// The field is not there.
    Missing,
    /// The field holds something other than a list.
    NotAList,
    /// The field holds a list.
    List(Vec<RecentEntry>),
}

/// The text of a TOML string value, if `v` is one (`toml::Value::as_str`).
/// Claimed: there is a text exactly when `v` is a string, it is the string's
/// text, and a string is not an array.
#[verifier::external_body]
fn value_text(v: &toml::Value) -> (r: Option<String>)
    ensures
        r is Some <==> toml_text_of(*v) is Some,
        r matches Some(s) ==> toml_text_of(*v) == Some(s@) && toml_items_of(*v) is None,
{
    v.as_str().map(|s| s.to_owned())
}

/// The items of a TOML array value, or the value itself back when it is not
/// an array (a match on `toml::Value::Array`). Claimed: the items come back
/// exactly when `v` is an array, and they are its items; any other value
/// comes back unchanged.
#[verifier::external_body]
fn value_items(v: toml::Value) -> (r: Result<Vec<toml::Value>, toml::Value>)
    ensures
        r matches Ok(items) ==> toml_items_of(v) == Some(items@),
        r matches Err(w) ==> w == v && toml_items_of(v) is None,
{
    match v {
        toml::Value::Array(items) => Ok(items),
        other => Err(other),
    }
}

/// The text of `v` when it is a TOML string (`toml::Value::String`), else
/// `None`.
pub uninterp spec fn toml_text_of(v: toml::Value) -> Option<Seq<char>>;

/// The items of `v` when it is a TOML array (`toml::Value::Array`), else
/// `None`.
pub uninterp spec fn toml_items_of(v: toml::Value) -> Option<Seq<toml::Value>>;

/// A TOML string value holding `s` (`toml::Value::String`). Claimed: it is a
/// string with the text `s` and not an array.
#[verifier::external_body]
fn text_value(s: String) -> (r: toml::Value)
    ensures
        toml_text_of(r) == Some(s@),
        toml_items_of(r) is None,
{
    toml::Value::String(s)
}

/// A TOML array value holding `items` (`toml::Value::Array`). Claimed: it is
/// an array with exactly these items and not a string.
#[verifier::external_body]
fn list_value(items: Vec<toml::Value>) -> (r: toml::Value)
    ensures
        toml_items_of(r) == Some(items@),
        toml_text_of(r) is None,
{
    toml::Value::Array(items)
}

/// `item` is how the list stores `e`: a TOML string with the path's text for
/// a path, the value itself for any other item.
pub open spec fn stored_as(e: RecentEntry, item: toml::Value) -> bool {
    match e {
        RecentEntry::Path(s) => toml_text_of(item) == Some(s@) && toml_items_of(item) is None,
        RecentEntry::Other(w) => item == w,
    }
}

/// `e` is the path `p`.
pub open spec fn names_path(e: RecentEntry, p: Seq<char>) -> bool {
    match e {
        RecentEntry::Path(s) => s@ == p,
        RecentEntry::Other(_) => false,
    }
}

/// `s` without the items that are the path `p`, the others in their order.
pub open spec fn without_path(s: Seq<RecentEntry>, p: Seq<char>) -> Seq<RecentEntry> {
    s.filter(|e: RecentEntry| !names_path(e, p))
}

/// The list after `path` is opened or saved: `path` first, then the old items
/// that are not `path` in their order, cut to the first
/// `RECENT_FILES_LIMIT` items.
pub open spec fn recent_after_push(s: Seq<RecentEntry>, path: String) -> Seq<RecentEntry> {
    let all = seq![RecentEntry::Path(path)] + without_path(s, path@);
    if all.len() <= RECENT_FILES_LIMIT {
        all
    } else {
        all.take(RECENT_FILES_LIMIT as int)
    }
}

/// The list item for the stored value `item`, of which `text` is the text if
/// it is a TOML string: its path then, else the value itself.
pub fn entry_from(item: toml::Value, text: Option<String>) -> (e: RecentEntry)
    ensures
        match text {
            Some(s) => e == RecentEntry::Path(s),
            None => e == RecentEntry::Other(item),
        },
{
    match text {
        Some(s) => RecentEntry::Path(s),
        None => RecentEntry::Other(item),
    }
}

/// `e` is how the list reads the stored value `item`: the path with the
/// string's text for a TOML string, the value itself for anything else.
pub open spec fn read_as(item: toml::Value, e: RecentEntry) -> bool {
    &&& stored_as(e, item)
    &&& e is Other ==> toml_text_of(item) is None
}

/// Reads what the configuration holds under the list's field; `None` means
/// the field is not there. An array is read item by item, in order; any other
/// value is no list.
pub fn read_recent_files(field: Option<toml::Value>) -> (r: RecentFiles)
    ensures
        field is None <==> r is Missing,
        field matches Some(v) ==> match toml_items_of(v) {
            None => r is NotAList,
            Some(items) => r matches RecentFiles::List(l) && l@.len() == items.len() && forall|
                i: int,
            | 0 <= i < items.len() ==> read_as(#[trigger] items[i], l@[i]),
        },
{
    match field {
        None => RecentFiles::Missing,
        Some(v) => match value_items(v) {
            Err(_) => RecentFiles::NotAList,
            Ok(items) => {
                let ghost orig = items@;
                let n = items.len();
                let mut rest = items;
                let mut out: Vec<RecentEntry> = Vec::new();
                while rest.len() > 0
                    invariant
                        out.len() + rest.len() == n,
                        orig.len() == n,
                        rest@ =~= orig.skip(out.len() as int),
                        forall|j: int| 0 <= j < out.len() ==> read_as(#[trigger] orig[j], out@[j]),
                    decreases rest.len(),
                {
                    let ghost i = out.len() as int;
                    let item = rest.remove(0);
                    assert(item == orig[i]);
                    let text = value_text(&item);
                    out.push(entry_from(item, text));
                    assert(read_as(orig[i], out@[i]));
                }
                RecentFiles::List(out)
            },
        },
    }
}

/// The TOML value that stores `entries` as a list.
pub fn recent_files_value(entries: Vec<RecentEntry>) -> (v: toml::Value)
    ensures
        toml_text_of(v) is None,
        toml_items_of(v) matches Some(items) && items.len() == entries@.len() && forall|i: int|
            0 <= i < items.len() ==> stored_as(entries@[i], #[trigger] items[i]),
{
    let ghost orig = entries@;
    let n = entries.len();
    let mut rest = entries;
    let mut items: Vec<toml::Value> = Vec::new();
    while rest.len() > 0
        invariant
            items.len() + rest.len() == n,
            orig.len() == n,
            rest@ =~= orig.skip(items.len() as int),
            forall|j: int| 0 <= j < items.len() ==> stored_as(orig[j], #[trigger] items@[j]),
        decreases rest.len(),
    {
        let ghost i = items.len() as int;
        let e = rest.remove(0);
        assert(e == orig[i]);
        match e {
            RecentEntry::Path(s) => items.push(text_value(s)),
            RecentEntry::Other(v) => items.push(v),
        }
        assert(stored_as(orig[i], items@[i]));
    }
    list_value(items)
}

/// Puts `path` at the head of the list, drops its older occurrences and keeps
/// at most `RECENT_FILES_LIMIT` items.
pub fn push_recent(list: Vec<RecentEntry>, path: String) -> (r: Vec<RecentEntry>)
    ensures
        r@ == recent_after_push(list@, path),
{
    let ghost orig = list@;
    let ghost pred = |e: RecentEntry| !names_path(e, path@);
    let mut rest = list;
    let mut out: Vec<RecentEntry> = Vec::new();
    assert(orig.take(0) =~= Seq::<RecentEntry>::empty());
    proof {
        reveal_with_fuel(Seq::filter, 1);
    }
    while rest.len() > 0
        invariant
            rest.len() <= orig.len(),
            rest@ =~= orig.skip(orig.len() - rest.len()),
            out@ == orig.take(orig.len() - rest.len()).filter(pred),
            pred == (|e: RecentEntry| !names_path(e, path@)),
        decreases rest.len(),
    {
        let ghost i = orig.len() - rest.len();
        let e = rest.remove(0);
        assert(e == orig[i]);
        let keep = match &e {
            RecentEntry::Path(s) => !s.eq(&path),
            RecentEntry::Other(_) => true,
        };
        assert(keep == pred(e));
        proof {
            orig.take(i).lemma_filter_push(e, pred);
            assert(orig.take(i + 1) =~= orig.take(i).push(e));
        }
        if keep {
            out.push(e);
        }
    }
    assert(orig.take(orig.len() as int) =~= orig);
    out.insert(0, RecentEntry::Path(path));
    assert(out@ =~= seq![RecentEntry::Path(path)] + without_path(orig, path@));
    out.truncate(RECENT_FILES_LIMIT);
    out
}

/// The list to store after `path` is opened or saved, or `None` when the
/// field holds something other than a list and is left alone.
pub fn recent_files_after_open(current: RecentFiles, path: String) -> (r: Option<Vec<RecentEntry>>)
    ensures
        match current {
            RecentFiles::Missing => r matches Some(l) && l@ == recent_after_push(
                Seq::empty(),
                path,
            ),
            RecentFiles::NotAList => r is None,
            RecentFiles::List(old) => r matches Some(l) && l@ == recent_after_push(old@, path),
        },
{
    match current {
        RecentFiles::Missing => Some(push_recent(Vec::new(), path)),
        RecentFiles::NotAList => None,
        RecentFiles::List(old) => Some(push_recent(old, path)),
    }
}

/// One item of the recent-files menu: the path it opens and its place in the
/// menu, which is the path's index in the stored list.
pub struct MenuEntry {
    pub position: usize,
    pub path: String,
}

/// What to do with the recent-files menu.
pub enum MenuPlan {
    /// Leave the menu as it is.
    Keep,
    /// Add the item that says that there are no recent files.
    Placeholder,
    /// Empty the menu and insert these items.
    Replace(Vec<MenuEntry>),
}

/// The menu items for the stored list `l`: one for each path, at the path's
/// index, in the list's order.
pub open spec fn menu_entries(l: Seq<RecentEntry>) -> Seq<MenuEntry>
    decreases l.len(),
{
    if l.len() == 0 {
        Seq::empty()
    } else {
        let prev = menu_entries(l.drop_last());
        match l.last() {
            RecentEntry::Path(s) => prev.push(MenuEntry { position: (l.len() - 1) as usize, path: s }),
            RecentEntry::Other(_) => prev,
        }
    }
}

/// What the recent-files menu shows for what the configuration holds.
pub fn recent_menu(current: RecentFiles) -> (r: MenuPlan)
    ensures
        match current {
            RecentFiles::Missing => r is Placeholder,
            RecentFiles::NotAList => r is Keep,
            RecentFiles::List(l) => r matches MenuPlan::Replace(v) && v@ == menu_entries(l@),
        },
{
    match current {
        RecentFiles::Missing => MenuPlan::Placeholder,
        RecentFiles::NotAList => MenuPlan::Keep,
        RecentFiles::List(l) => {
            let ghost orig = l@;
            let n = l.len();
            let mut rest = l;
            let mut out: Vec<MenuEntry> = Vec::new();
            let mut i: usize = 0;
            assert(orig.take(0) =~= Seq::<RecentEntry>::empty());
            while rest.len() > 0
                invariant
                    i + rest.len() == n,
                    orig.len() == n,
                    rest@ =~= orig.skip(i as int),
                    out@ == menu_entries(orig.take(i as int)),
                decreases rest.len(),
            {
                let e = rest.remove(0);
                assert(e == orig[i as int]);
                assert(orig.take(i + 1).drop_last() =~= orig.take(i as int));
                match e {
                    RecentEntry::Path(s) => out.push(MenuEntry { position: i, path: s }),
                    RecentEntry::Other(_) => {},
                }
                i += 1;
            }
            assert(orig.take(orig.len() as int) =~= orig);
            MenuPlan::Replace(out)
        },
    }
}

} // verus!
