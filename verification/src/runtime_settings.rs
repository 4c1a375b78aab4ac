//! The runtime-settings table: every setting the server knows, where its
//! value comes from, and how the page groups, shows and edits it.

use vstd::prelude::*;
use crate::order::{
    lemma_text_less_irreflexive, lemma_text_less_total, lemma_text_less_transitive,
    strictly_ascending, text_before, text_less,
};
use crate::text::{
    chars_of, char_to_uppercase, join2, join3, lowercase_of, owned, push_all, same_text,
    string_from_range, to_lowercase, trim, trimmed, uppercase_of, is_ascii_char,
    trim_start, trim_end, all_ascii, all_white, ascii_lowered, ascii_uppered, ascii_upper,
    lemma_ascii_case_char, lemma_trim_uppered, lemma_trimmed_chars, law_trim_idempotent,
    law_trim_ignores_padding,
};

verus! {

/// Which layer supplies a setting's effective value.
#[derive(Clone, Copy, Debug, PartialEq, Eq, Structural)]
pub enum SettingSource {
    Override,
    Env,
    Default,
    Unset,
}

/// The kind of value a setting takes, which decides its input control.
#[derive(Clone, Debug, PartialEq, Eq)]
pub enum SettingKind {
    Bool,
    U64,
    F64,
    Str,
    Enum(Vec<String>),
}

/// One row of the runtime-settings listing.
#[derive(Clone, Debug, PartialEq, Eq)]
pub struct RuntimeSettingEntry {
    pub key: String,
    pub category: Option<String>,
    pub description: Option<String>,
    pub kind: Option<SettingKind>,
    pub source: SettingSource,
    pub override_value: Option<String>,
    pub effective: Option<String>,
    pub env_value: Option<String>,
    pub restart_required: bool,
    pub registered: bool,
}

/// The kind of a setting, as plain values.
pub enum SettingKindView {
    Bool,
    U64,
    F64,
    Str,
    Enum(Seq<Seq<char>>),
}

/// A settings row, as plain values.
pub struct RuntimeSettingEntryView {
    pub key: Seq<char>,
    pub category: Option<Seq<char>>,
    pub description: Option<Seq<char>>,
    pub kind: Option<SettingKindView>,
    pub source: SettingSource,
    pub override_value: Option<Seq<char>>,
    pub effective: Option<Seq<char>>,
    pub env_value: Option<Seq<char>>,
    pub restart_required: bool,
    pub registered: bool,
}

/// The texts of a list of strings.
pub open spec fn texts(v: Seq<String>) -> Seq<Seq<char>> {
    v.map_values(|s: String| s@)
}

/// The text of an optional string.
pub open spec fn opt_text(o: Option<String>) -> Option<Seq<char>> {
    match o {
        Some(s) => Some(s@),
        None => None,
    }
}

impl View for SettingKind {
    type V = SettingKindView;

    open spec fn view(&self) -> SettingKindView {
        match self {
            SettingKind::Bool => SettingKindView::Bool,
            SettingKind::U64 => SettingKindView::U64,
            SettingKind::F64 => SettingKindView::F64,
            SettingKind::Str => SettingKindView::Str,
            SettingKind::Enum(values) => SettingKindView::Enum(texts(values@)),
        }
    }
}

impl View for RuntimeSettingEntry {
    type V = RuntimeSettingEntryView;

    open spec fn view(&self) -> RuntimeSettingEntryView {
        RuntimeSettingEntryView {
            key: self.key@,
            category: opt_text(self.category),
            description: opt_text(self.description),
            kind: match self.kind {
                Some(k) => Some(k@),
                None => None,
            },
            source: self.source,
            override_value: opt_text(self.override_value),
            effective: opt_text(self.effective),
            env_value: opt_text(self.env_value),
            restart_required: self.restart_required,
            registered: self.registered,
        }
    }
}

/// The rows of a listing, as plain values.
pub open spec fn entry_views(v: Seq<RuntimeSettingEntry>) -> Seq<RuntimeSettingEntryView> {
    v.map_values(|e: RuntimeSettingEntry| e@)
}

/// A copy of `s`.
fn copy_string(s: &String) -> (r: String)
    ensures
        r@ == s@,
{
    s.clone()
}

/// A copy of an optional string.
fn copy_opt_string(o: &Option<String>) -> (r: Option<String>)
    ensures
        opt_text(r) == opt_text(*o),
{
    match o {
        Some(s) => Some(copy_string(s)),
        None => None,
    }
}

/// A copy of a list of strings.
fn copy_strings(v: &Vec<String>) -> (r: Vec<String>)
    ensures
        texts(r@) == texts(v@),
{
    let mut r: Vec<String> = Vec::new();
    let mut i: usize = 0;
    while i < v.len()
        invariant
            i <= v@.len(),
            r@.len() == i,
            forall|k: int| 0 <= k < i ==> #[trigger] r@[k]@ == v@[k]@,
        decreases v.len() - i,
    {
        r.push(copy_string(&v[i]));
        i = i + 1;
    }
    assert(texts(r@) =~= texts(v@));
    r
}

/// A copy of a setting kind.
fn copy_kind(k: &SettingKind) -> (r: SettingKind)
    ensures
        r@ == k@,
{
    match k {
        SettingKind::Bool => SettingKind::Bool,
        SettingKind::U64 => SettingKind::U64,
        SettingKind::F64 => SettingKind::F64,
        SettingKind::Str => SettingKind::Str,
        SettingKind::Enum(values) => SettingKind::Enum(copy_strings(values)),
    }
}

/// A copy of a settings row.
pub fn copy_entry(e: &RuntimeSettingEntry) -> (r: RuntimeSettingEntry)
    ensures
        r@ == e@,
{
    RuntimeSettingEntry {
        key: copy_string(&e.key),
        category: copy_opt_string(&e.category),
        description: copy_opt_string(&e.description),
        kind: match &e.kind {
            Some(k) => Some(copy_kind(k)),
            None => None,
        },
        source: e.source,
        override_value: copy_opt_string(&e.override_value),
        effective: copy_opt_string(&e.effective),
        env_value: copy_opt_string(&e.env_value),
        restart_required: e.restart_required,
        registered: e.registered,
    }
}

/// The category a row is filed under: its own, or `other` when it has none.
pub open spec fn category_of(e: RuntimeSettingEntryView) -> Seq<char> {
    match e.category {
        Some(c) => c,
        None => "other"@,
    }
}

/// The category a row is filed under.
pub fn category_name(e: &RuntimeSettingEntry) -> (c: String)
    ensures
        c@ == category_of(e@),
{
    match &e.category {
        Some(c) => copy_string(c),
        None => crate::text::owned("other"),
    }
}

/// The registered rows of `es` filed under `cat`, in their order in `es`.
pub open spec fn members(es: Seq<RuntimeSettingEntryView>, cat: Seq<char>) -> Seq<RuntimeSettingEntryView>
    decreases es.len(),
{
    if es.len() == 0 {
        Seq::empty()
    } else {
        let rest = members(es.drop_last(), cat);
        if es.last().registered && category_of(es.last()) == cat {
            rest.push(es.last())
        } else {
            rest
        }
    }
}

/// The rows of `es` that are not registered, in their order in `es`.
pub open spec fn unregistered_rows(es: Seq<RuntimeSettingEntryView>) -> Seq<RuntimeSettingEntryView>
    decreases es.len(),
{
    if es.len() == 0 {
        Seq::empty()
    } else {
        let rest = unregistered_rows(es.drop_last());
        if !es.last().registered {
            rest.push(es.last())
        } else {
            rest
        }
    }
}

/// A registered row is among the members of its own category.
pub proof fn lemma_members_contains(es: Seq<RuntimeSettingEntryView>, k: int)
    requires
        0 <= k < es.len(),
        es[k].registered,
    ensures
        members(es, category_of(es[k])).contains(es[k]),
    decreases es.len(),
{
    let cat = category_of(es[k]);
    if k == es.len() - 1 {
        assert(members(es, cat).last() == es[k]);
    } else {
        lemma_members_contains(es.drop_last(), k);
        let rest = members(es.drop_last(), cat);
        let w = choose|i: int| 0 <= i < rest.len() && rest[i] == es[k];
        if es.last().registered && category_of(es.last()) == cat {
            assert(members(es, cat)[w] == es[k]);
        }
    }
}

/// Every member of a category is registered and filed under it, and is a row of `es`.
pub proof fn lemma_members_sound(es: Seq<RuntimeSettingEntryView>, cat: Seq<char>)
    ensures
        forall|i: int| 0 <= i < members(es, cat).len() ==> {
            &&& (#[trigger] members(es, cat)[i]).registered
            &&& category_of(members(es, cat)[i]) == cat
            &&& es.contains(members(es, cat)[i])
        },
    decreases es.len(),
{
    if es.len() > 0 {
        lemma_members_sound(es.drop_last(), cat);
        let rest = members(es.drop_last(), cat);
        assert forall|i: int| 0 <= i < members(es, cat).len() implies {
            &&& (#[trigger] members(es, cat)[i]).registered
            &&& category_of(members(es, cat)[i]) == cat
            &&& es.contains(members(es, cat)[i])
        } by {
            if i < rest.len() {
                assert(members(es, cat)[i] == rest[i]);
                let w = choose|j: int| 0 <= j < es.drop_last().len() && es.drop_last()[j] == rest[i];
                assert(es[w] == rest[i]);
            } else {
                assert(members(es, cat)[i] == es.last());
                assert(es[es.len() - 1] == es.last());
            }
        }
    }
}

/// Every row the unregistered list holds is an unregistered row of `es`,
/// and every unregistered row of `es` is in it.
pub proof fn lemma_unregistered_rows(es: Seq<RuntimeSettingEntryView>)
    ensures
        forall|i: int| 0 <= i < unregistered_rows(es).len() ==> !(#[trigger] unregistered_rows(es)[i]).registered,
        forall|k: int| 0 <= k < es.len() && !es[k].registered ==> unregistered_rows(es).contains(#[trigger] es[k]),
    decreases es.len(),
{
    if es.len() > 0 {
        let init = es.drop_last();
        lemma_unregistered_rows(init);
        let rest = unregistered_rows(init);
        assert forall|k: int| 0 <= k < es.len() && !es[k].registered implies unregistered_rows(es).contains(#[trigger] es[k]) by {
            if k < es.len() - 1 {
                assert(init[k] == es[k]);
                let w = choose|j: int| 0 <= j < rest.len() && rest[j] == init[k];
                assert(unregistered_rows(es)[w] == es[k]);
            } else {
                assert(unregistered_rows(es).last() == es[k]);
            }
        }
        assert forall|i: int| 0 <= i < unregistered_rows(es).len() implies !(#[trigger] unregistered_rows(es)[i]).registered by {
            if i < rest.len() {
                assert(unregistered_rows(es)[i] == rest[i]);
            }
        }
    }
}

/// The grouping of `es` as a map: each category that has registered rows,
/// to those rows in order.
pub open spec fn group_map(es: Seq<RuntimeSettingEntryView>) -> Map<Seq<char>, Seq<RuntimeSettingEntryView>> {
    Map::new(|cat: Seq<char>| members(es, cat).len() > 0, |cat: Seq<char>| members(es, cat))
}

/// Two groupings merged key by key: a category of both maps to the rows of
/// the first followed by those of the second.
pub open spec fn merge_groups(
    a: Map<Seq<char>, Seq<RuntimeSettingEntryView>>,
    b: Map<Seq<char>, Seq<RuntimeSettingEntryView>>,
) -> Map<Seq<char>, Seq<RuntimeSettingEntryView>> {
    Map::new(
        |cat: Seq<char>| a.contains_key(cat) || b.contains_key(cat),
        |cat: Seq<char>|
            (if a.contains_key(cat) { a[cat] } else { Seq::empty() }) + (if b.contains_key(cat) {
                b[cat]
            } else {
                Seq::empty()
            }),
    )
}

/// The members of a category in two lists joined end to end are those of
/// the first list followed by those of the second.
pub proof fn lemma_members_concat(xs: Seq<RuntimeSettingEntryView>, ys: Seq<RuntimeSettingEntryView>, cat: Seq<char>)
    ensures
        members(xs + ys, cat) == members(xs, cat) + members(ys, cat),
    decreases ys.len(),
{
    if ys.len() == 0 {
        assert(xs + ys =~= xs);
        assert(members(xs, cat) + members(ys, cat) =~= members(xs, cat));
    } else {
        assert((xs + ys).drop_last() =~= xs + ys.drop_last());
        assert((xs + ys).last() == ys.last());
        lemma_members_concat(xs, ys.drop_last(), cat);
        let m = members(xs, cat);
        let n = members(ys.drop_last(), cat);
        assert((m + n).push(ys.last()) =~= m + n.push(ys.last()));
    }
}

/// Grouping two lists joined end to end is merging their groupings key by key.
pub proof fn law_grouping_of_concatenation(xs: Seq<RuntimeSettingEntryView>, ys: Seq<RuntimeSettingEntryView>)
    ensures
        group_map(xs + ys) == merge_groups(group_map(xs), group_map(ys)),
{
    let l = group_map(xs + ys);
    let r = merge_groups(group_map(xs), group_map(ys));
    assert forall|cat: Seq<char>| #[trigger] l.contains_key(cat) <==> r.contains_key(cat) by {
        lemma_members_concat(xs, ys, cat);
    }
    assert forall|cat: Seq<char>| #[trigger] l.contains_key(cat) implies l[cat] == r[cat] by {
        lemma_members_concat(xs, ys, cat);
        if members(xs, cat).len() == 0 {
            assert(members(xs, cat) =~= Seq::<RuntimeSettingEntryView>::empty());
        }
        if members(ys, cat).len() == 0 {
            assert(members(ys, cat) =~= Seq::<RuntimeSettingEntryView>::empty());
        }
        assert(l[cat] =~= r[cat]);
    }
    assert(l =~= r);
}

/// The registered rows of `entries` filed under `cat`, in order.
fn collect_members(entries: &Vec<RuntimeSettingEntry>, cat: &String) -> (r: Vec<RuntimeSettingEntry>)
    ensures
        entry_views(r@) == members(entry_views(entries@), cat@),
{
    let ghost all = entry_views(entries@);
    let mut r: Vec<RuntimeSettingEntry> = Vec::new();
    let mut k: usize = 0;
    while k < entries.len()
        invariant
            k <= entries@.len(),
            all == entry_views(entries@),
            entry_views(r@) == members(all.take(k as int), cat@),
        decreases entries.len() - k,
    {
        let e = &entries[k];
        assert(all.take(k + 1).drop_last() =~= all.take(k as int));
        assert(all.take(k + 1).last() == e@);
        if e.registered {
            let c = category_name(e);
            if c == *cat {
                let ghost before = r@;
                r.push(copy_entry(e));
                assert(entry_views(r@) =~= entry_views(before).push(e@));
            }
        }
        k = k + 1;
    }
    assert(all.take(entries@.len() as int) =~= all);
    r
}

/// The rows of `entries` that are not registered, in order.
pub fn unregistered(entries: &Vec<RuntimeSettingEntry>) -> (r: Vec<RuntimeSettingEntry>)
    ensures
        entry_views(r@) == unregistered_rows(entry_views(entries@)),
        forall|i: int| 0 <= i < r@.len() ==> !(#[trigger] r@[i]).registered,
        forall|k: int| 0 <= k < entries@.len() && !(#[trigger] entries@[k]).registered
            ==> entry_views(r@).contains(entries@[k]@),
{
    let ghost all = entry_views(entries@);
    let mut r: Vec<RuntimeSettingEntry> = Vec::new();
    let mut k: usize = 0;
    while k < entries.len()
        invariant
            k <= entries@.len(),
            all == entry_views(entries@),
            entry_views(r@) == unregistered_rows(all.take(k as int)),
        decreases entries.len() - k,
    {
        let e = &entries[k];
        assert(all.take(k + 1).drop_last() =~= all.take(k as int));
        assert(all.take(k + 1).last() == e@);
        if !e.registered {
            let ghost before = r@;
            r.push(copy_entry(e));
            assert(entry_views(r@) =~= entry_views(before).push(e@));
        }
        k = k + 1;
    }
    assert(all.take(entries@.len() as int) =~= all);
    proof {
        lemma_unregistered_rows(all);
        assert forall|i: int| 0 <= i < r@.len() implies !(#[trigger] r@[i]).registered by {
            assert(entry_views(r@)[i] == r@[i]@);
        }
        assert forall|k2: int| 0 <= k2 < entries@.len() && !(#[trigger] entries@[k2]).registered
            implies entry_views(r@).contains(entries@[k2]@) by {
            assert(all[k2] == entries@[k2]@);
        }
    }
    r
}

/// Adds `c` to the ascending list of category names `cats`, unless it is there.
fn insert_category(cats: &mut Vec<String>, c: String)
    requires
        strictly_ascending(texts(old(cats)@)),
    ensures
        strictly_ascending(texts(final(cats)@)),
        forall|x: Seq<char>| texts(final(cats)@).contains(x) <==> (texts(old(cats)@).contains(x) || x == c@),
{
    let cv = chars_of(c.as_str());
    let mut p: usize = 0;
    while p < cats.len() && text_before(&chars_of(cats[p].as_str()), &cv)
        invariant
            p <= cats@.len(),
            cats@ == old(cats)@,
            strictly_ascending(texts(cats@)),
            cv@ == c@,
            forall|k: int| 0 <= k < p ==> text_less(#[trigger] texts(cats@)[k], c@),
        decreases cats.len() - p,
    {
        p = p + 1;
    }
    let ghost old_texts = texts(cats@);
    if p < cats.len() && cats[p] == c {
        assert forall|x: Seq<char>| texts(cats@).contains(x) <==> (old_texts.contains(x) || x == c@) by {
            if x == c@ {
                assert(old_texts[p as int] == x);
            }
        }
        return;
    }
    proof {
        if p < old_texts.len() {
            lemma_text_less_total(old_texts[p as int], c@);
            assert(text_less(c@, old_texts[p as int]));
            assert forall|q: int| p <= q < old_texts.len() implies text_less(c@, #[trigger] old_texts[q]) by {
                if q > p {
                    lemma_text_less_transitive(c@, old_texts[p as int], old_texts[q]);
                }
            }
        }
    }
    cats.insert(p, c);
    let ghost new_texts = texts(cats@);
    assert(new_texts =~= old_texts.insert(p as int, c@));
    assert forall|i: int, j: int| 0 <= i < j < new_texts.len() implies text_less(#[trigger] new_texts[i], #[trigger] new_texts[j]) by {
        if i < p && j < p {
        } else if i < p && j == p {
        } else if i < p {
            assert(new_texts[j] == old_texts[j - 1]);
        } else if i == p {
            assert(new_texts[j] == old_texts[j - 1]);
        } else {
            assert(new_texts[i] == old_texts[i - 1]);
            assert(new_texts[j] == old_texts[j - 1]);
        }
    }
    assert forall|x: Seq<char>| new_texts.contains(x) <==> (old_texts.contains(x) || x == c@) by {
        if new_texts.contains(x) {
            let w = choose|i: int| 0 <= i < new_texts.len() && new_texts[i] == x;
            if w < p {
                assert(old_texts[w] == x);
            } else if w > p {
                assert(old_texts[w - 1] == x);
            }
        }
        if old_texts.contains(x) {
            let w = choose|i: int| 0 <= i < old_texts.len() && old_texts[i] == x;
            if w < p {
                assert(new_texts[w] == x);
            } else {
                assert(new_texts[w + 1] == x);
            }
        }
        if x == c@ {
            assert(new_texts[p as int] == x);
        }
    }
}

/// The registered settings of one category.
#[derive(Clone, Debug, PartialEq, Eq)]
pub struct CategoryGroup {
    pub category: String,
    pub entries: Vec<RuntimeSettingEntry>,
}

/// The registered rows of `entries`, grouped by category (rows without one
/// under `other`). The groups come in ascending order of category, each
/// category once; a group holds its rows in their order in `entries`, and no
/// group is empty. Rows that are not registered are in no group.
pub fn group_by_category(entries: &Vec<RuntimeSettingEntry>) -> (groups: Vec<CategoryGroup>)
    ensures
        forall|i: int, j: int| 0 <= i < j < groups@.len() ==>
            text_less(#[trigger] groups@[i].category@, #[trigger] groups@[j].category@),
        forall|i: int, j: int| 0 <= i < groups@.len() && 0 <= j < groups@.len() && i != j ==>
            (#[trigger] groups@[i].category@) != (#[trigger] groups@[j].category@),
        forall|i: int| 0 <= i < groups@.len() ==> {
            &&& entry_views((#[trigger] groups@[i]).entries@) == members(entry_views(entries@), groups@[i].category@)
            &&& groups@[i].entries@.len() > 0
        },
        forall|k: int| 0 <= k < entries@.len() && (#[trigger] entries@[k]).registered ==>
            exists|i: int| 0 <= i < groups@.len() && groups@[i].category@ == category_of(entries@[k]@),
        // Each registered row is in the group of its category; every row of a
        // group is a registered row of `entries` filed under that group.
        forall|k: int| 0 <= k < entries@.len() && (#[trigger] entries@[k]).registered ==>
            forall|i: int| 0 <= i < groups@.len() && groups@[i].category@ == category_of(entries@[k]@)
                ==> entry_views(groups@[i].entries@).contains(entries@[k]@),
        forall|i: int, m: int| 0 <= i < groups@.len() && 0 <= m < groups@[i].entries@.len() ==> {
            let row = (#[trigger] groups@[i].entries@[m])@;
            &&& row.registered
            &&& category_of(row) == groups@[i].category@
            &&& entry_views(entries@).contains(row)
        },
        // The groups are the grouping of `entries` as a map, in key order.
        forall|cat: Seq<char>| #[trigger] group_map(entry_views(entries@)).contains_key(cat) <==>
            exists|i: int| 0 <= i < groups@.len() && groups@[i].category@ == cat,
{
    let ghost all = entry_views(entries@);
    let mut cats: Vec<String> = Vec::new();
    let mut k: usize = 0;
    while k < entries.len()
        invariant
            k <= entries@.len(),
            all == entry_views(entries@),
            strictly_ascending(texts(cats@)),
            forall|j: int| 0 <= j < k && (#[trigger] all[j]).registered ==> texts(cats@).contains(category_of(all[j])),
            forall|x: Seq<char>| texts(cats@).contains(x) ==>
                exists|j: int| 0 <= j < k && (#[trigger] all[j]).registered && category_of(all[j]) == x,
        decreases entries.len() - k,
    {
        let e = &entries[k];
        assert(all[k as int] == e@);
        if e.registered {
            let ghost before = texts(cats@);
            insert_category(&mut cats, category_name(e));
            assert forall|x: Seq<char>| texts(cats@).contains(x) implies
                exists|j: int| 0 <= j < k + 1 && (#[trigger] all[j]).registered && category_of(all[j]) == x by {
                if !before.contains(x) {
                    assert(all[k as int].registered && category_of(all[k as int]) == x);
                }
            }
        }
        k = k + 1;
    }
    let mut groups: Vec<CategoryGroup> = Vec::new();
    let mut g: usize = 0;
    while g < cats.len()
        invariant
            g <= cats@.len(),
            all == entry_views(entries@),
            k == entries@.len(),
            strictly_ascending(texts(cats@)),
            forall|x: Seq<char>| texts(cats@).contains(x) ==>
                exists|j: int| 0 <= j < k && (#[trigger] all[j]).registered && category_of(all[j]) == x,
            groups@.len() == g,
            forall|i: int| 0 <= i < g ==> {
                &&& (#[trigger] groups@[i]).category@ == texts(cats@)[i]
                &&& entry_views(groups@[i].entries@) == members(all, groups@[i].category@)
                &&& groups@[i].entries@.len() > 0
            },
        decreases cats.len() - g,
    {
        let cat = &cats[g];
        let found = collect_members(entries, cat);
        proof {
            assert(texts(cats@)[g as int] == cat@);
            assert(texts(cats@).contains(cat@));
            let j = choose|j: int| 0 <= j < k && (#[trigger] all[j]).registered && category_of(all[j]) == cat@;
            lemma_members_contains(all, j);
            assert(entry_views(found@).len() == found@.len());
        }
        groups.push(CategoryGroup { category: copy_string(cat), entries: found });
        g = g + 1;
    }
    proof {
        assert forall|i: int, j: int| 0 <= i < groups@.len() && 0 <= j < groups@.len() && i != j implies
            (#[trigger] groups@[i].category@) != (#[trigger] groups@[j].category@) by {
            lemma_text_less_irreflexive(groups@[i].category@);
            if i < j {
                assert(text_less(texts(cats@)[i], texts(cats@)[j]));
            } else {
                assert(text_less(texts(cats@)[j], texts(cats@)[i]));
            }
        }
        assert forall|k2: int| 0 <= k2 < entries@.len() && (#[trigger] entries@[k2]).registered implies
            exists|i: int| 0 <= i < groups@.len() && groups@[i].category@ == category_of(entries@[k2]@) by {
            assert(all[k2] == entries@[k2]@);
            let x = category_of(all[k2]);
            assert(texts(cats@).contains(x));
            let w = choose|i: int| 0 <= i < texts(cats@).len() && texts(cats@)[i] == x;
            assert(groups@[w].category@ == x);
        }
        assert forall|k2: int| 0 <= k2 < entries@.len() && (#[trigger] entries@[k2]).registered implies
            forall|i: int| 0 <= i < groups@.len() && groups@[i].category@ == category_of(entries@[k2]@)
                ==> entry_views(groups@[i].entries@).contains(entries@[k2]@) by {
            assert(all[k2] == entries@[k2]@);
            lemma_members_contains(all, k2);
        }
        assert forall|i: int, m: int| 0 <= i < groups@.len() && 0 <= m < groups@[i].entries@.len() implies {
            let row = (#[trigger] groups@[i].entries@[m])@;
            &&& row.registered
            &&& category_of(row) == groups@[i].category@
            &&& entry_views(entries@).contains(row)
        } by {
            let cat = groups@[i].category@;
            lemma_members_sound(all, cat);
            assert(entry_views(groups@[i].entries@)[m] == groups@[i].entries@[m]@);
            assert(members(all, cat)[m] == groups@[i].entries@[m]@);
        }
        assert forall|cat: Seq<char>| #[trigger] group_map(all).contains_key(cat) <==>
            exists|i: int| 0 <= i < groups@.len() && groups@[i].category@ == cat by {
            if group_map(all).contains_key(cat) {
                lemma_members_sound(all, cat);
                let row = members(all, cat)[0];
                assert(members(all, cat)[0] == row);
                let k3 = choose|j: int| 0 <= j < all.len() && all[j] == row;
                assert(all[k3] == entries@[k3]@);
                assert(entries@[k3].registered);
            }
            if exists|i: int| 0 <= i < groups@.len() && groups@[i].category@ == cat {
                let i = choose|i: int| 0 <= i < groups@.len() && groups@[i].category@ == cat;
                assert(groups@[i].entries@.len() > 0);
                assert(entry_views(groups@[i].entries@).len() == groups@[i].entries@.len());
            }
        }
    }
    groups
}


/// The text a row's input starts with: the override if there is one, else
/// the effective value, else nothing.
pub open spec fn initial_text(e: RuntimeSettingEntryView) -> Seq<char> {
    match e.override_value {
        Some(v) => v,
        None => match e.effective {
            Some(v) => v,
            None => Seq::empty(),
        },
    }
}

/// A row's input starts with its override whenever it has one, with its
/// effective value when it has no override, and empty with neither; the
/// env value and the source play no part.
pub proof fn law_initial_precedence(e: RuntimeSettingEntryView)
    ensures
        e.override_value matches Some(v) ==> initial_text(e) == v,
        e.override_value is None ==> (e.effective matches Some(v) ==> initial_text(e) == v),
        e.override_value is None && e.effective is None ==> initial_text(e).len() == 0,
        initial_text(RuntimeSettingEntryView { env_value: None, source: SettingSource::Unset, ..e })
            == initial_text(e),
{
}

/// The text a row's input starts with.
pub fn initial_value(e: &RuntimeSettingEntry) -> (r: String)
    ensures
        r@ == initial_text(e@),
{
    match &e.override_value {
        Some(v) => copy_string(v),
        None => match &e.effective {
            Some(v) => copy_string(v),
            None => String::new(),
        },
    }
}

/// Whether the row's input differs from the value it started with.
pub fn is_dirty(input: &str, e: &RuntimeSettingEntry) -> (r: bool)
    ensures
        r == (input@ != initial_text(e@)),
{
    let initial = initial_value(e);
    !same_text(input, initial.as_str())
}

/// Whether the row's Save button accepts a click: not while saving, and only
/// when the input has changed.
pub fn can_save(saving: bool, input: &str, e: &RuntimeSettingEntry) -> (r: bool)
    ensures
        r == (!saving && input@ != initial_text(e@)),
{
    !saving && is_dirty(input, e)
}

/// The badge text for where a value comes from.
pub open spec fn source_text(s: SettingSource) -> Seq<char> {
    match s {
        SettingSource::Override => "override"@,
        SettingSource::Env => "env"@,
        SettingSource::Default => "default"@,
        SettingSource::Unset => "unset"@,
    }
}

/// The four sources have four different badges, each naming its source.
pub proof fn law_source_labels(a: SettingSource, b: SettingSource)
    ensures
        a != b ==> source_text(a) != source_text(b),
        source_text(SettingSource::Override) == "override"@,
        source_text(SettingSource::Env) == "env"@,
        source_text(SettingSource::Default) == "default"@,
        source_text(SettingSource::Unset) == "unset"@,
{
    reveal_strlit("override");
    reveal_strlit("env");
    reveal_strlit("default");
    reveal_strlit("unset");
    if a != b {
        assert(source_text(a).len() != source_text(b).len() || source_text(a)[0] != source_text(b)[0]);
    }
}

/// The badge text for where a value comes from.
pub fn source_label(s: SettingSource) -> (r: &'static str)
    ensures
        r@ == source_text(s),
{
    match s {
        SettingSource::Override => "override",
        SettingSource::Env => "env",
        SettingSource::Default => "default",
        SettingSource::Unset => "unset",
    }
}

/// The badge colours for where a value comes from.
pub open spec fn source_class_text(s: SettingSource) -> Seq<char> {
    match s {
        SettingSource::Override => "bg-amber-900/40 text-amber-300"@,
        SettingSource::Env => "bg-blue-900/40 text-blue-300"@,
        SettingSource::Default => "bg-gray-700 text-gray-300"@,
        SettingSource::Unset => "bg-gray-800 text-gray-400"@,
    }
}

/// The badge colours for where a value comes from.
pub fn source_badge_class(s: SettingSource) -> (r: &'static str)
    ensures
        r@ == source_class_text(s),
{
    match s {
        SettingSource::Override => "bg-amber-900/40 text-amber-300",
        SettingSource::Env => "bg-blue-900/40 text-blue-300",
        SettingSource::Default => "bg-gray-700 text-gray-300",
        SettingSource::Unset => "bg-gray-800 text-gray-400",
    }
}

/// The env value shown beside a row, or a dash when there is none.
pub fn env_display(e: &RuntimeSettingEntry) -> (r: String)
    ensures
        r@ == match e@.env_value {
            Some(v) => v,
            None => "\u{2014}"@,
        },
{
    match &e.env_value {
        Some(v) => copy_string(v),
        None => owned("\u{2014}"),
    }
}

/// The input control a setting is edited with.
#[derive(Clone, Debug, PartialEq, Eq)]
pub enum ControlKind {
    Checkbox,
    Select(Vec<String>),
    Number,
    Text,
}

/// The control for a kind of setting: a checkbox for booleans, a select of
/// the allowed values for enumerations, a number field for numbers, and a
/// text field otherwise.
pub open spec fn control_matches(kind: Option<SettingKindView>, c: ControlKind) -> bool {
    match kind {
        Some(SettingKindView::Bool) => c is Checkbox,
        Some(SettingKindView::Enum(values)) => c matches ControlKind::Select(vs) && texts(vs@) == values,
        Some(SettingKindView::U64) => c is Number,
        Some(SettingKindView::F64) => c is Number,
        _ => c is Text,
    }
}

/// Booleans get a checkbox, both number kinds a number field, an
/// enumeration a select offering exactly its values in order, and every
/// other setting (or one of unknown kind) a text field.
pub proof fn law_controls(kind: Option<SettingKindView>, c: ControlKind)
    requires
        control_matches(kind, c),
    ensures
        kind == Some(SettingKindView::Bool) ==> c == ControlKind::Checkbox,
        (kind == Some(SettingKindView::U64) || kind == Some(SettingKindView::F64)) ==> c == ControlKind::Number,
        kind == Some(SettingKindView::Str) || kind is None ==> c == ControlKind::Text,
        kind matches Some(SettingKindView::Enum(values)) ==> (c matches ControlKind::Select(vs)
            && vs@.len() == values.len()
            && forall|i: int| 0 <= i < values.len() ==> #[trigger] vs@[i]@ == values[i]),
{
    if let Some(SettingKindView::Enum(values)) = kind {
        if let ControlKind::Select(vs) = c {
            assert forall|i: int| 0 <= i < values.len() implies #[trigger] vs@[i]@ == values[i] by {
                assert(texts(vs@)[i] == vs@[i]@);
            }
        }
    }
}

/// The control a setting of kind `kind` is edited with.
pub fn control_for(kind: &Option<SettingKind>) -> (c: ControlKind)
    ensures
        control_matches(
            match kind {
                Some(k) => Some(k@),
                None => None,
            },
            c,
        ),
{
    match kind {
        Some(SettingKind::Bool) => ControlKind::Checkbox,
        Some(SettingKind::Enum(values)) => ControlKind::Select(copy_strings(values)),
        Some(SettingKind::U64) => ControlKind::Number,
        Some(SettingKind::F64) => ControlKind::Number,
        _ => ControlKind::Text,
    }
}

/// The value a checkbox event stores: `true` when the event reports `true`
/// or `on`, `false` otherwise.
pub fn checkbox_value(event_value: &str) -> (r: String)
    ensures
        r@ == checkbox_text(event_value@),
{
    if same_text(event_value, "true") || same_text(event_value, "on") {
        owned("true")
    } else {
        owned("false")
    }
}

/// One of the words that switch a boolean on.
pub open spec fn is_truthy_word(w: Seq<char>) -> bool {
    w == "true"@ || w == "1"@ || w == "yes"@ || w == "on"@
}

/// The answer of the truthy test for `s`: after trimming and lowercasing it
/// is `true`, `1`, `yes` or `on`.
pub open spec fn truthy_answer(s: Seq<char>) -> bool {
    is_truthy_word(lowercase_of(trimmed(s)))
}

/// Whether a stored value reads as "on": after trimming and lowercasing it
/// is `true`, `1`, `yes` or `on`. For ASCII text the lowercasing is the
/// ASCII one.
pub fn matches_truthy(v: &str) -> (r: bool)
    ensures
        r == truthy_answer(v@),
        all_ascii(trimmed(v@)) ==> r == is_truthy_word(ascii_lowered(trimmed(v@))),
{
    let t = trim(v);
    let l = to_lowercase(t.as_str());
    same_text(l.as_str(), "true") || same_text(l.as_str(), "1") || same_text(l.as_str(), "yes")
        || same_text(l.as_str(), "on")
}

/// White space around a value, trimming it first, and (for ASCII text) the
/// case of its letters never change whether it reads as "on". The case part
/// is stated through the ASCII clause of `matches_truthy`: what lowercasing
/// does to other characters is Unicode's, and only named here.
pub proof fn law_truthy_ignores_spacing_and_case(p: Seq<char>, s: Seq<char>, q: Seq<char>)
    requires
        all_white(p),
        all_white(q),
    ensures
        truthy_answer(trimmed(s)) == truthy_answer(s),
        truthy_answer(p + s + q) == truthy_answer(s),
        all_ascii(s) ==> all_ascii(trimmed(s)),
        all_ascii(s) ==> all_ascii(trimmed(ascii_uppered(s))),
        all_ascii(s) ==> is_truthy_word(ascii_lowered(trimmed(ascii_uppered(s))))
            == is_truthy_word(ascii_lowered(trimmed(s))),
{
    law_trim_idempotent(s);
    law_trim_ignores_padding(p, s, q);
    if all_ascii(s) {
        lemma_trimmed_chars(s);
        lemma_trim_uppered(s);
        let t = trimmed(s);
        assert forall|i: int| 0 <= i < t.len() implies is_ascii_char(#[trigger] t[i]) by {
            let w = choose|j: int| 0 <= j < s.len() && s[j] == t[i];
            assert(is_ascii_char(s[w]));
        }
        assert forall|i: int| 0 <= i < t.len() implies is_ascii_char(#[trigger] ascii_uppered(t)[i]) by {
            lemma_ascii_case_char(t[i]);
        }
        assert forall|i: int| 0 <= i < t.len() implies #[trigger] ascii_lowered(ascii_uppered(t))[i]
            == ascii_lowered(t)[i] by {
            lemma_ascii_case_char(t[i]);
        }
        assert(ascii_lowered(ascii_uppered(t)) =~= ascii_lowered(t));
    }
}

/// The value a checkbox event stores.
pub open spec fn checkbox_text(event_value: Seq<char>) -> Seq<char> {
    if event_value == "true"@ || event_value == "on"@ { "true"@ } else { "false"@ }
}

/// The value a checkbox stores reads back as checked exactly when the
/// event switched it on: it is ASCII, and reads as "on" iff the event
/// reported `true` or `on`.
pub proof fn law_checkbox_reads_back(event_value: Seq<char>)
    ensures
        all_ascii(trimmed(checkbox_text(event_value))),
        is_truthy_word(ascii_lowered(trimmed(checkbox_text(event_value))))
            == (event_value == "true"@ || event_value == "on"@),
{
    reveal_strlit("true");
    reveal_strlit("false");
    reveal_strlit("1");
    reveal_strlit("yes");
    reveal_strlit("on");
    let t = seq!['t', 'r', 'u', 'e'];
    let f = seq!['f', 'a', 'l', 's', 'e'];
    assert("true"@ =~= t);
    assert("false"@ =~= f);
    assert(trim_start(t) == t);
    assert(trim_end(t) == t);
    assert(trim_start(f) == f);
    assert(trim_end(f) == f);
    assert(ascii_lowered(t) =~= t);
    assert(ascii_lowered(f) =~= f);
    assert(!is_truthy_word(f)) by {
        assert(f.len() != "true"@.len());
        assert(f.len() != "1"@.len());
        assert(f.len() != "yes"@.len());
        assert(f.len() != "on"@.len());
    }
}

/// A category name for display: its first character in uppercase, the rest as it is.
pub open spec fn display_category(cat: Seq<char>) -> Seq<char> {
    if cat.len() == 0 {
        Seq::empty()
    } else {
        uppercase_of(cat[0]) + cat.drop_first()
    }
}

/// A category name for display when its first character is ASCII: that
/// character in ASCII uppercase, the rest as it is.
pub open spec fn ascii_title(cat: Seq<char>) -> Seq<char> {
    if cat.len() == 0 {
        Seq::empty()
    } else {
        seq![ascii_upper(cat[0])] + cat.drop_first()
    }
}

/// A category name for display.
pub fn format_category(cat: &str) -> (r: String)
    ensures
        r@ == display_category(cat@),
        cat@.len() == 0 || is_ascii_char(cat@[0]) ==> r@ == ascii_title(cat@),
{
    let v = chars_of(cat);
    if v.len() == 0 {
        return String::new();
    }
    let mut r = char_to_uppercase(v[0]);
    let rest = string_from_range(&v, 1, v.len());
    push_all(&mut r, rest.as_str());
    assert(v@.subrange(1, v@.len() as int) =~= cat@.drop_first());
    r
}

/// A title changes only the first character, to its ASCII uppercase.
pub proof fn law_ascii_title(cat: Seq<char>)
    ensures
        ascii_title(cat).len() == cat.len(),
        cat.len() > 0 ==> ascii_title(cat)[0] == ascii_upper(cat[0]),
        forall|i: int| 1 <= i < cat.len() ==> #[trigger] ascii_title(cat)[i] == cat[i],
{
}

/// Formatting a category name whose first character is ASCII twice gives
/// what formatting it once gives: the result starts with an ASCII character
/// again, so `format_category`'s ASCII clause applies to it, and its title
/// is itself.
pub proof fn law_format_category_idempotent(cat: Seq<char>)
    requires
        cat.len() == 0 || is_ascii_char(cat[0]),
    ensures
        ascii_title(cat).len() == 0 || is_ascii_char(ascii_title(cat)[0]),
        ascii_title(ascii_title(cat)) == ascii_title(cat),
{
    if cat.len() > 0 {
        lemma_ascii_case_char(cat[0]);
        let once = ascii_title(cat);
        assert(once[0] == ascii_upper(cat[0]));
        assert(once.drop_first() =~= cat.drop_first());
        assert(ascii_title(once) =~= once);
    }
}

/// What the page does after a save or a clear of one row finishes.
#[derive(Clone, Debug, PartialEq, Eq)]
pub struct RowUpdate {
    /// The message the page shows.
    pub feedback: String,
    /// The error shown under the row, if the request failed.
    pub row_error: Option<String>,
    /// The restart banner is to be raised.
    pub needs_restart: bool,
    /// The listing is to be fetched again.
    pub reload: bool,
}

/// What follows a save of `key`: the server's answer says whether the
/// setting needs a restart, or why the save failed.
pub fn after_save(key: &str, result: &Result<bool, String>) -> (u: RowUpdate)
    ensures
        match result {
            Ok(restart_required) => {
                &&& u.feedback@ == "Saved "@ + key@
                &&& u.row_error is None
                &&& u.needs_restart == *restart_required
                &&& u.reload
            },
            Err(e) => {
                &&& u.feedback@ == "Failed to save "@ + key@ + ": "@ + e@
                &&& u.row_error matches Some(m) && m@ == e@
                &&& !u.needs_restart
                &&& !u.reload
            },
        },
{
    match result {
        Ok(restart_required) => RowUpdate {
            feedback: join2("Saved ", key),
            row_error: None,
            needs_restart: *restart_required,
            reload: true,
        },
        Err(e) => {
            let mut feedback = join3("Failed to save ", key, ": ");
            push_all(&mut feedback, e.as_str());
            RowUpdate { feedback, row_error: Some(copy_string(e)), needs_restart: false, reload: false }
        },
    }
}

/// What follows clearing the override of `key`, a setting that needs a
/// restart when `restart_required`.
pub fn after_clear(key: &str, restart_required: bool, result: &Result<(), String>) -> (u: RowUpdate)
    ensures
        match result {
            Ok(_) => {
                &&& u.feedback@ == "Cleared override for "@ + key@
                &&& u.row_error is None
                &&& u.needs_restart == restart_required
                &&& u.reload
            },
            Err(e) => {
                &&& u.feedback@ == "Failed to clear "@ + key@ + ": "@ + e@
                &&& u.row_error matches Some(m) && m@ == e@
                &&& !u.needs_restart
                &&& !u.reload
            },
        },
{
    match result {
        Ok(_) => RowUpdate {
            feedback: join2("Cleared override for ", key),
            row_error: None,
            needs_restart: restart_required,
            reload: true,
        },
        Err(e) => {
            let mut feedback = join3("Failed to clear ", key, ": ");
            push_all(&mut feedback, e.as_str());
            RowUpdate { feedback, row_error: Some(copy_string(e)), needs_restart: false, reload: false }
        },
    }
}


/// The state of the runtime-settings page around reloads and restarts.
#[derive(Clone, Copy, Debug, PartialEq, Eq, Structural)]
pub struct RuntimePageState {
    /// Bumped to fetch the listing again.
    pub reload_tick: u32,
    /// A saved or cleared setting needs a restart: the banner is up.
    pub restart_pending: bool,
    /// A restart was asked for and the page waits for the server to return.
    pub restarting: bool,
}

/// What happened on the page.
#[derive(Clone, Debug, PartialEq, Eq)]
pub enum RuntimePageEvent {
    /// A save or clear of one row finished.
    RowFinished(RowUpdate),
    /// The Restart now button was pressed.
    RestartClicked,
    /// The wait after a restart request is over.
    RestartSettled,
}

/// What the page is to do next.
#[derive(Clone, Copy, Debug, PartialEq, Eq, Structural)]
pub enum RuntimePageAction {
    Nothing,
    /// Ask the server to re-execute itself, then wait for it.
    RequestRestart,
}

/// The page state after one row finishes: the restart flag is raised when
/// the row needs a restart and never lowered, and the listing reloads after
/// a success.
pub open spec fn after_row(s: RuntimePageState, u: RowUpdate) -> RuntimePageState {
    RuntimePageState {
        reload_tick: if u.reload { (s.reload_tick + 1) as u32 } else { s.reload_tick },
        restart_pending: s.restart_pending || u.needs_restart,
        restarting: s.restarting,
    }
}

/// The page state after the rows `us` finish, in order.
pub open spec fn after_rows(s: RuntimePageState, us: Seq<RowUpdate>) -> RuntimePageState
    decreases us.len(),
{
    if us.len() == 0 {
        s
    } else {
        after_row(after_rows(s, us.drop_last()), us.last())
    }
}

/// However many saves and clears finish, and whatever the server answered,
/// a raised restart flag stays raised and the reload counter never goes
/// down (it rises by at most one per row). The counter must have room for
/// the rows, as `runtime_page_step` asks.
pub proof fn law_rows_never_lower_restart_or_reload(s: RuntimePageState, us: Seq<RowUpdate>)
    requires
        s.reload_tick + us.len() <= u32::MAX,
    ensures
        s.restart_pending ==> after_rows(s, us).restart_pending,
        s.reload_tick <= after_rows(s, us).reload_tick <= s.reload_tick + us.len(),
        after_rows(s, us).restarting == s.restarting,
    decreases us.len(),
{
    if us.len() > 0 {
        law_rows_never_lower_restart_or_reload(s, us.drop_last());
    }
}

/// The page's next state and action after `ev`. A finished row raises the
/// restart banner when it needs a restart and reloads the listing when it
/// succeeded; Restart now starts a restart; when the wait is over the
/// banner and the overlay go and the listing reloads.
pub fn runtime_page_step(s: RuntimePageState, ev: &RuntimePageEvent) -> (r: (RuntimePageState, RuntimePageAction))
    requires
        s.reload_tick < u32::MAX,
    ensures
        match ev {
            RuntimePageEvent::RowFinished(u) => {
                &&& r.0 == after_row(s, *u)
                &&& r.0.restart_pending == (s.restart_pending || u.needs_restart)
                &&& r.0.restarting == s.restarting
                &&& r.0.reload_tick == if u.reload { s.reload_tick + 1 } else { s.reload_tick as int }
                &&& r.1 == RuntimePageAction::Nothing
            },
            RuntimePageEvent::RestartClicked => {
                &&& r.0 == (RuntimePageState { restarting: true, ..s })
                &&& r.1 == RuntimePageAction::RequestRestart
            },
            RuntimePageEvent::RestartSettled => {
                &&& r.0.restart_pending == false
                &&& r.0.restarting == false
                &&& r.0.reload_tick == s.reload_tick + 1
                &&& r.1 == RuntimePageAction::Nothing
            },
        },
{
    match ev {
        RuntimePageEvent::RowFinished(u) => {
            let tick = if u.reload { s.reload_tick + 1 } else { s.reload_tick };
            (
                RuntimePageState {
                    reload_tick: tick,
                    restart_pending: s.restart_pending || u.needs_restart,
                    restarting: s.restarting,
                },
                RuntimePageAction::Nothing,
            )
        },
        RuntimePageEvent::RestartClicked => (
            RuntimePageState { reload_tick: s.reload_tick, restart_pending: s.restart_pending, restarting: true },
            RuntimePageAction::RequestRestart,
        ),
        RuntimePageEvent::RestartSettled => (
            RuntimePageState { reload_tick: s.reload_tick + 1, restart_pending: false, restarting: false },
            RuntimePageAction::Nothing,
        ),
    }
}


/// The rollback the server made at the last boot, when a saved override
/// kept it from becoming healthy.
#[derive(Clone, Debug, PartialEq, Eq)]
pub struct RuntimeRollback {
    pub last_bad_file: String,
    pub rolled_back_at: String,
}

/// The listing the runtime-settings page shows.
#[derive(Clone, Debug, PartialEq, Eq)]
pub struct RuntimeListing {
    pub loading: bool,
    pub error: Option<String>,
    pub entries: Vec<RuntimeSettingEntry>,
    pub rollback: Option<RuntimeRollback>,
}

impl RuntimeListing {
    /// The listing before the first fetch: loading, nothing shown.
    pub fn initial() -> (l: RuntimeListing)
        ensures
            l.loading,
            l.error is None,
            l.entries@.len() == 0,
            l.rollback is None,
    {
        RuntimeListing { loading: true, error: None, entries: Vec::new(), rollback: None }
    }

    /// A fetch starts: the listing shows it is loading and keeps what it has.
    pub fn start_fetch(&mut self)
        ensures
            final(self).loading,
            final(self).error == old(self).error,
            final(self).entries == old(self).entries,
            final(self).rollback == old(self).rollback,
    {
        self.loading = true;
    }

    /// A fetch finished: on success the listing and the rollback note are
    /// replaced and any error cleared; on failure the error is shown and the
    /// rows already there stay.
    pub fn finish_fetch(
        &mut self,
        result: Result<(Vec<RuntimeSettingEntry>, Option<RuntimeRollback>), String>,
    )
        ensures
            !final(self).loading,
            match result {
                Ok((entries, rollback)) => {
                    &&& final(self).error is None
                    &&& final(self).entries == entries
                    &&& final(self).rollback == rollback
                },
                Err(e) => {
                    &&& final(self).error == Some(e)
                    &&& final(self).entries == old(self).entries
                    &&& final(self).rollback == old(self).rollback
                },
            },
    {
        match result {
            Ok((entries, rollback)) => {
                self.loading = false;
                self.error = None;
                self.entries = entries;
                self.rollback = rollback;
            },
            Err(e) => {
                self.loading = false;
                self.error = Some(e);
            },
        }
    }
}

} // verus!
