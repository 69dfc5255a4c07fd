//! The configured list of layouts and the step from one layout to the next.

use vstd::prelude::*;
use vstd::seq_lib::lemma_seq_contains_after_push;
use crate::config::Environment;
use crate::error::{outcome, ConfigFault, LayoutError, LayoutErrorView};
use crate::text::{pieces, split};

verus! {

/// The layouts to cycle through where none are configured.
pub open spec fn default_layouts() -> Seq<Seq<char>> {
    seq!["us"@, "fr"@]
}

/// The entries without the empty ones and without repeats: of equal entries
/// the first stays, and what stays keeps its order.
pub open spec fn distinct(entries: Seq<Seq<char>>) -> Seq<Seq<char>>
    decreases entries.len(),
{
    if entries.len() == 0 {
        Seq::<Seq<char>>::empty()
    } else {
        let before = distinct(entries.drop_last());
        let entry = entries.last();
        if entry.len() == 0 || before.contains(entry) {
            before
        } else {
            before.push(entry)
        }
    }
}

/// The list of layouts that a value of the layouts variable stands for.
pub open spec fn configured(value: Option<Seq<char>>) -> Seq<Seq<char>> {
    match value {
        Some(text) => distinct(pieces(text, ',')),
        None => distinct(default_layouts()),
    }
}

/// Whether `list` is a list of layouts: no name is empty and none occurs twice.
pub open spec fn is_layout_list(list: Seq<Seq<char>>) -> bool {
    &&& forall|i: int| 0 <= i < list.len() ==> (#[trigger] list[i]).len() > 0
    &&& forall|i: int, j: int| 0 <= i < j < list.len() ==> list[i] != list[j]
}

/// Whether `i` is the first position of `list` that holds `name`.
pub open spec fn is_first_at(list: Seq<Seq<char>>, name: Seq<char>, i: int) -> bool {
    &&& 0 <= i < list.len()
    &&& list[i] == name
    &&& forall|j: int| 0 <= j < i ==> list[j] != name
}

/// The first position of `list` that holds `name`, where there is one.
pub open spec fn first_at(list: Seq<Seq<char>>, name: Seq<char>) -> int {
    choose|i: int| is_first_at(list, name, i)
}

/// The layout to switch to from `current`: the one after its first
/// occurrence in `list`, and the first of `list` after the last.
pub open spec fn successor(list: Seq<Seq<char>>, current: Seq<char>) -> Result<
    Seq<char>,
    LayoutErrorView,
> {
    if list.len() == 0 {
        Err(LayoutErrorView::Config(ConfigFault::NoLayouts))
    } else if !list.contains(current) {
        Err(LayoutErrorView::NotFound)
    } else {
        Ok(list[(first_at(list, current) + 1) % (list.len() as int)])
    }
}

/// The first position of `list` that holds `name`.
fn position(list: &Vec<String>, name: &String) -> (r: Option<usize>)
    ensures
        match r {
            Some(i) => is_first_at(list.deep_view(), name@, i as int),
            None => !list.deep_view().contains(name@),
        },
{
    let mut i: usize = 0;
    while i < list.len()
        invariant
            i <= list.len(),
            forall|j: int| 0 <= j < i ==> list.deep_view()[j] != name@,
        decreases list.len() - i,
    {
        if list[i] == *name {
            return Some(i);
        }
        i = i + 1;
    }
    None
}

/// Drops the empty entries and the repeats.
fn keep_distinct(raw: &Vec<String>) -> (r: Vec<String>)
    ensures
        r.deep_view() == distinct(raw.deep_view()),
{
    let mut r: Vec<String> = Vec::new();
    let mut i: usize = 0;
    while i < raw.len()
        invariant
            i <= raw.len(),
            r.deep_view() == distinct(raw.deep_view().take(i as int)),
        decreases raw.len() - i,
    {
        proof {
            assert(raw.deep_view().take(i + 1).drop_last() =~= raw.deep_view().take(i as int));
        }
        let entry = &raw[i];
        if !entry.as_str().is_empty() && position(&r, entry).is_none() {
            r.push(entry.clone());
        }
        i = i + 1;
    }
    proof {
        assert(raw.deep_view().take(i as int) =~= raw.deep_view());
    }
    r
}

/// No name of `distinct(entries)` is empty and none occurs twice.
pub proof fn distinct_is_layout_list(entries: Seq<Seq<char>>)
    ensures
        is_layout_list(distinct(entries)),
    decreases entries.len(),
{
    if entries.len() > 0 {
        distinct_is_layout_list(entries.drop_last());
    }
}

/// The layouts to cycle through: the entries of the layouts variable that
/// commas separate, or the two default layouts where it is not set, without
/// empty entries and repeats.
pub fn get_user_layout(env: &Environment) -> (r: Vec<String>)
    ensures
        r.deep_view() == configured(env@.layouts),
        is_layout_list(r.deep_view()),
{
    let raw: Vec<String> = match &env.layouts {
        Some(text) => split(text.as_str(), ','),
        None => {
            let mut both: Vec<String> = Vec::new();
            both.push("us".to_owned());
            both.push("fr".to_owned());
            proof {
                assert(both.deep_view() =~= default_layouts());
            }
            both
        },
    };
    proof {
        distinct_is_layout_list(raw.deep_view());
    }
    keep_distinct(&raw)
}

/// The layout to switch to from `current`.
///
/// An empty list is a configuration error, and a current layout that the
/// list does not hold is not found. Else the result is the layout that
/// stands after the first occurrence of `current`, or the first of the list
/// where `current` is the last.
pub fn next_layout(layouts: &Vec<String>, current: &str) -> (r: Result<String, LayoutError>)
    ensures
        outcome(r) == successor(layouts.deep_view(), current@),
{
    if layouts.len() == 0 {
        return Err(LayoutError::Config(ConfigFault::NoLayouts));
    }
    let name = current.to_owned();
    match position(layouts, &name) {
        None => Err(LayoutError::NotFound),
        Some(i) => {
            let next: usize = if i + 1 == layouts.len() {
                0
            } else {
                i + 1
            };
            proof {
                let list = layouts.deep_view();
                let len = list.len() as int;
                assert((i + 1) % len == next) by (nonlinear_arith)
                    requires
                        0 <= i < len,
                        next == if i + 1 == len { 0 } else { i + 1 },
                ;
            }
            Ok(layouts[next].clone())
        },
    }
}

/// With no layout configured there is nothing to switch to, whatever the
/// current layout is.
pub proof fn successor_in_empty_list(current: Seq<char>)
    ensures
        successor(Seq::<Seq<char>>::empty(), current) == Err::<Seq<char>, LayoutErrorView>(
            LayoutErrorView::Config(ConfigFault::NoLayouts),
        ),
{
}

/// A layout that is not in the list has no successor.
pub proof fn successor_of_stranger(list: Seq<Seq<char>>, current: Seq<char>)
    requires
        list.len() > 0,
        !list.contains(current),
    ensures
        successor(list, current) == Err::<Seq<char>, LayoutErrorView>(LayoutErrorView::NotFound),
{
}

/// In a list of layouts every layout but the last is followed by its right
/// neighbour, and the last by the first.
pub proof fn successor_is_neighbour(list: Seq<Seq<char>>, i: int)
    requires
        is_layout_list(list),
        0 <= i < list.len(),
    ensures
        i + 1 < list.len() ==> successor(list, list[i]) == Ok::<Seq<char>, LayoutErrorView>(
            list[i + 1],
        ),
        i + 1 == list.len() ==> successor(list, list[i]) == Ok::<Seq<char>, LayoutErrorView>(
            list[0],
        ),
{
    let len = list.len() as int;
    assert(is_first_at(list, list[i], i));
    assert((i + 1) % len == if i + 1 == len { 0 } else { i + 1 }) by (nonlinear_arith)
        requires
            0 <= i < len,
    ;
}

/// Switching on from the last layout of a list of layouts leads to the first.
pub proof fn successor_of_last_is_first(list: Seq<Seq<char>>)
    requires
        is_layout_list(list),
        list.len() > 0,
    ensures
        successor(list, list.last()) == Ok::<Seq<char>, LayoutErrorView>(list[0]),
{
    successor_is_neighbour(list, list.len() - 1);
}

/// The list holds exactly the entries that are not empty.
pub proof fn distinct_holds_every_name(entries: Seq<Seq<char>>, name: Seq<char>)
    ensures
        distinct(entries).contains(name) <==> entries.contains(name) && name.len() > 0,
    decreases entries.len(),
{
    if entries.len() > 0 {
        let rest = entries.drop_last();
        let last = entries.last();
        distinct_holds_every_name(rest, name);
        assert(entries =~= rest.push(last));
        lemma_seq_contains_after_push(rest, last, name);
        lemma_seq_contains_after_push(distinct(rest), last, name);
    }
}

/// A list of layouts is configured as it stands.
pub proof fn distinct_of_layout_list(list: Seq<Seq<char>>)
    requires
        is_layout_list(list),
    ensures
        distinct(list) == list,
    decreases list.len(),
{
    if list.len() > 0 {
        let rest = list.drop_last();
        distinct_of_layout_list(rest);
        assert forall|k: int| 0 <= k < rest.len() implies rest[k] != list.last() by {
            assert(rest[k] == list[k]);
        }
        assert(rest.push(list.last()) =~= list);
    }
}

/// Where no layouts are configured, the two default layouts are the list.
pub proof fn configured_by_default()
    ensures
        configured(None) == default_layouts(),
{
    reveal_strlit("us");
    reveal_strlit("fr");
    assert("us"@[0] != "fr"@[0]);
    distinct_of_layout_list(default_layouts());
}

/// Where `list` holds `name`, there is a first position that does.
pub proof fn first_at_is_first(list: Seq<Seq<char>>, name: Seq<char>)
    requires
        list.contains(name),
    ensures
        is_first_at(list, name, first_at(list, name)),
    decreases list.len(),
{
    let rest = list.drop_last();
    if rest.contains(name) {
        first_at_is_first(rest, name);
        first_at_stays(list, name);
    } else {
        assert forall|j: int| 0 <= j < list.len() - 1 implies list[j] != name by {
            assert(list[j] == rest[j]);
        }
        assert(is_first_at(list, name, list.len() - 1));
    }
}

/// An entry put behind a list does not change where a name first stands in it.
pub proof fn first_at_stays(list: Seq<Seq<char>>, name: Seq<char>)
    requires
        list.len() > 0,
        list.drop_last().contains(name),
        is_first_at(list.drop_last(), name, first_at(list.drop_last(), name)),
    ensures
        is_first_at(list, name, first_at(list.drop_last(), name)),
        first_at(list, name) == first_at(list.drop_last(), name),
{
    let rest = list.drop_last();
    let at = first_at(rest, name);
    assert forall|j: int| 0 <= j <= at implies list[j] == rest[j] by {
    }
    assert(is_first_at(list, name, at));
}

/// The layouts stand in the list in the order in which they first occur
/// among the entries.
pub proof fn distinct_keeps_order(entries: Seq<Seq<char>>, i: int, j: int)
    requires
        0 <= i < j < distinct(entries).len(),
    ensures
        entries.contains(distinct(entries)[i]),
        entries.contains(distinct(entries)[j]),
        first_at(entries, distinct(entries)[i]) < first_at(entries, distinct(entries)[j]),
    decreases entries.len(),
{
    let rest = entries.drop_last();
    let before = distinct(rest);
    let a = distinct(entries)[i];
    let b = distinct(entries)[j];
    assert(before[i] == a);
    distinct_holds_every_name(rest, a);
    first_at_is_first(rest, a);
    first_at_stays(entries, a);
    if j < before.len() {
        assert(before[j] == b);
        distinct_keeps_order(rest, i, j);
        first_at_is_first(rest, b);
        first_at_stays(entries, b);
    } else {
        distinct_holds_every_name(rest, b);
        assert(entries.last() == b);
        assert forall|k: int| 0 <= k < rest.len() implies entries[k] != b by {
            assert(rest[k] == entries[k]);
        }
        assert(is_first_at(entries, b, entries.len() - 1));
    }
}

} // verus!
