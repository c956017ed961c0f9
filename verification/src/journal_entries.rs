//! The journal entries page: dates and statuses as shown, the list's filters,
//! counts, selection and pages, the entry form's VAT fields, the list's
//! address, and the notices after each action.

use vstd::prelude::*;
pub use crate::text::opt_view;
use crate::text::{chars_of, string_of, str_eq, str_less, text_less, owned, concat, push_char, before_first, before_sep,
    split_on, split_seq, to_lowercase, lowercase, folded_contains, opt_folded_contains, folded_match,
    starts_with, has_prefix, contains_char, url_encode, percent_encoded, encode_utf8_of, byte_prefix, non_empty, has_substring};
use crate::answers::Notice;
use crate::text::lemma_before_sep;
use vstd::std_specs::iter::IteratorSpec;
use crate::numtext::{int_to_string, int_text, parse_i64, parsed_i64, zeros};
use crate::groups::{counts_by_key, count_of, views, keys_of, KeyCount, indices_where, selects};

verus! {

/// An account offered in the entry form.
#[derive(Debug, Clone, Default)]
pub struct Account {
    pub id: i64,
    pub code: String,
    pub name: String,
}

/// A counterpart offered in the entry form.
#[derive(Debug, Clone, Default)]
pub struct Counterpart {
    pub id: i64,
    pub name: String,
    pub vat_number: Option<String>,
    pub counterpart_type: String,
}

/// A currency offered in the entry form.
#[derive(Debug, Clone, Default)]
pub struct Currency {
    pub id: i64,
    pub code: String,
    pub name: String,
    pub symbol: Option<String>,
}

/// The fields of a journal entry that the list's logic reads (the amounts,
/// floats, stay with the caller).
#[derive(Debug, Clone, Default)]
pub struct EntryRow {
    pub id: i64,
    pub entry_date: String,
    pub description: String,
    pub reference: Option<String>,
    pub status: String,
    pub document_number: Option<String>,
}

// ---------------------------------------------------------------------------
// Dates and statuses as shown
// ---------------------------------------------------------------------------

/// An ISO date (optionally with a time after `T`) as `DD.MM.YYYY`: the date
/// part split on `-`; with exactly three pieces they are shown in reverse
/// order joined by `.`, otherwise the text is shown as it is.
pub open spec fn shown_date(s: Seq<char>) -> Seq<char> {
    let parts = split_seq(before_sep(s, 'T'), '-');
    if parts.len() == 3 {
        parts[2] + seq!['.'] + parts[1] + seq!['.'] + parts[0]
    } else {
        s
    }
}

pub fn format_date(date_str: &str) -> (r: String)
    ensures
        r@ == shown_date(date_str@),
{
    let date_part = before_first(date_str, 'T');
    let parts = split_on(date_part.as_str(), '-');
    if parts.len() == 3 {
        let mut r = owned(parts[2].as_str());
        push_char(&mut r, '.');
        r.append(parts[1].as_str());
        push_char(&mut r, '.');
        r.append(parts[0].as_str());
        r
    } else {
        owned(date_str)
    }
}

/// The date part of an ISO date-time: everything before `T`.
pub fn get_date_part(date_str: &str) -> (r: String)
    ensures
        r@ == before_sep(date_str@, 'T'),
{
    before_first(date_str, 'T')
}

/// Law: the date part of a date-time is a prefix of it that holds no `T`,
/// followed in it by `T` or by nothing, and taking the date part of the date
/// part gives it back.
pub proof fn lemma_date_part(s: Seq<char>)
    ensures
        before_sep(s, 'T').len() <= s.len(),
        before_sep(s, 'T') =~= s.take(before_sep(s, 'T').len() as int),
        !before_sep(s, 'T').contains('T'),
        before_sep(s, 'T').len() == s.len() || s[before_sep(s, 'T').len() as int] == 'T',
        before_sep(before_sep(s, 'T'), 'T') == before_sep(s, 'T'),
{
    lemma_before_sep(s, 'T');
}

/// The label and colour of an entry status.
pub open spec fn status_badge(status: Seq<char>) -> (Seq<char>, Seq<char>) {
    if status == "draft"@ { ("Чернова"@, "#f39c12"@) }
    else if status == "posted"@ { ("Осчетоводен"@, "#27ae60"@) }
    else if status == "voided"@ { ("Анулиран"@, "#e74c3c"@) }
    else { ("Неизвестен"@, "#7f8c8d"@) }
}

/// Law: each entry status has a badge label of its own: no other status,
/// known or not, is shown as a draft, a posted or a voided entry.
pub proof fn lemma_status_labels(t1: Seq<char>, t2: Seq<char>)
    requires
        t1 != t2,
        t1 == "draft"@ || t1 == "posted"@ || t1 == "voided"@,
    ensures
        status_badge(t1).0 != status_badge(t2).0,
{
    reveal_strlit("draft");
    reveal_strlit("posted");
    reveal_strlit("voided");
    reveal_strlit("Чернова");
    reveal_strlit("Осчетоводен");
    reveal_strlit("Анулиран");
    reveal_strlit("Неизвестен");
    assert(status_badge(t1).0.len() != status_badge(t2).0.len());
}

pub fn get_status_badge(status: &str) -> (r: (&'static str, &'static str))
    ensures
        (r.0@, r.1@) == status_badge(status@),
{
    if str_eq(status, "draft") { ("Чернова", "#f39c12") }
    else if str_eq(status, "posted") { ("Осчетоводен", "#27ae60") }
    else if str_eq(status, "voided") { ("Анулиран", "#e74c3c") }
    else { ("Неизвестен", "#7f8c8d") }
}

// ---------------------------------------------------------------------------
// The list's filters and counts
// ---------------------------------------------------------------------------

/// Whether an entry passes the list's filters: the status filter (when set)
/// asks for that status; the date bounds (when set) bound the entry's date
/// part from below and above; a non-empty (lowercased) query must occur in
/// the lowercased description, reference or document number.
pub open spec fn entry_matches(e: EntryRow, query: Seq<char>, status: Seq<char>, from: Seq<char>, to: Seq<char>) -> bool {
    let day = before_sep(e.entry_date@, 'T');
    &&& (status.len() > 0 ==> e.status@ == status)
    &&& (from.len() > 0 ==> !text_less(day, from))
    &&& (to.len() > 0 ==> !text_less(to, day))
    &&& (query.len() > 0 ==> {
        ||| folded_match(e.description@, query)
        ||| (e.reference matches Some(r) && folded_match(r@, query))
        ||| (e.document_number matches Some(d) && folded_match(d@, query))
    })
}

fn entry_passes(e: &EntryRow, query: &str, status: &str, from: &str, to: &str) -> (r: bool)
    ensures
        r == entry_matches(*e, query@, status@, from@, to@),
{
    if !status.is_empty() && !str_eq(e.status.as_str(), status) {
        return false;
    }
    let day = get_date_part(e.entry_date.as_str());
    if !from.is_empty() && str_less(day.as_str(), from) {
        return false;
    }
    if !to.is_empty() && str_less(to, day.as_str()) {
        return false;
    }
    if !query.is_empty() {
        let hit = folded_contains(e.description.as_str(), query)
            || opt_folded_contains(&e.reference, query)
            || opt_folded_contains(&e.document_number, query);
        if !hit {
            return false;
        }
    }
    true
}

/// The indices, in order, of the entries that pass the filters, the search
/// query taken lowercased.
pub fn filter_entries(entries: &Vec<EntryRow>, search_query: &str, status: &str, date_from: &str, date_to: &str) -> (r: Vec<usize>)
    ensures
        forall|a: int, b: int| 0 <= a < b < r.len() ==> r@[a] < r@[b],
        forall|a: int| 0 <= a < r.len() ==> (#[trigger] r@[a]) < entries.len(),
        forall|i: int| 0 <= i < entries.len() ==> (r@.contains(i as usize)
            <==> entry_matches(#[trigger] entries@[i], lowercase(search_query@), status@, date_from@, date_to@)),
{
    let q = to_lowercase(search_query);
    let mut flags: Vec<bool> = Vec::new();
    let mut i: usize = 0;
    while i < entries.len()
        invariant
            q@ == lowercase(search_query@),
            i <= entries.len(),
            flags.len() == i,
            forall|j: int| 0 <= j < i ==> #[trigger] flags@[j] == entry_matches(entries@[j], q@, status@, date_from@, date_to@),
        decreases entries.len() - i,
    {
        flags.push(entry_passes(&entries[i], q.as_str(), status, date_from, date_to));
        i = i + 1;
    }
    let r = indices_where(&flags);
    assert forall|i: int| 0 <= i < entries.len() implies (r@.contains(i as usize)
        <==> entry_matches(#[trigger] entries@[i], lowercase(search_query@), status@, date_from@, date_to@)) by {
        assert(flags@[i] == entry_matches(entries@[i], q@, status@, date_from@, date_to@));
    }
    r
}

/// Law: each filter of the journal list bounds the listed entries on its own,
/// whatever the other filters are. With a status, every listed entry has it;
/// with a from date, no listed entry's date part is before it; with a to
/// date, none is after it; with a (lowercased) query, the lowercased
/// description, reference or document number of each listed entry holds it.
/// And an entry that meets every filter that is set, the query by its
/// description, is listed. `r` is what `filter_entries` gives for these
/// filters (the query lowercased).
pub proof fn lemma_entry_filters(entries: Seq<EntryRow>, query: Seq<char>, status: Seq<char>, from: Seq<char>, to: Seq<char>, r: Seq<usize>)
    requires
        forall|a: int| 0 <= a < r.len() ==> (#[trigger] r[a]) < entries.len(),
        forall|i: int| 0 <= i < entries.len() ==> (r.contains(i as usize)
            <==> entry_matches(#[trigger] entries[i], query, status, from, to)),
    ensures
        forall|a: int| 0 <= a < r.len() && status.len() > 0 ==> entries[#[trigger] r[a] as int].status@ == status,
        forall|a: int| 0 <= a < r.len() && from.len() > 0 ==> !text_less(before_sep(entries[#[trigger] r[a] as int].entry_date@, 'T'), from),
        forall|a: int| 0 <= a < r.len() && to.len() > 0 ==> !text_less(to, before_sep(entries[#[trigger] r[a] as int].entry_date@, 'T')),
        forall|a: int| 0 <= a < r.len() && query.len() > 0 ==> {
            let e = entries[#[trigger] r[a] as int];
            ||| has_substring(lowercase(e.description@), query)
            ||| (e.reference matches Some(x) && has_substring(lowercase(x@), query))
            ||| (e.document_number matches Some(x) && has_substring(lowercase(x@), query))
        },
        forall|i: int| 0 <= i < entries.len()
            && (status.len() > 0 ==> (#[trigger] entries[i]).status@ == status)
            && (from.len() > 0 ==> !text_less(before_sep(entries[i].entry_date@, 'T'), from))
            && (to.len() > 0 ==> !text_less(to, before_sep(entries[i].entry_date@, 'T')))
            && (query.len() > 0 ==> has_substring(lowercase(entries[i].description@), query))
            ==> r.contains(i as usize),
{
    assert forall|a: int| 0 <= a < r.len() implies entry_matches(entries[#[trigger] r[a] as int], query, status, from, to) by {
        assert(r.contains(r[a]));
    }
}

/// The statuses of the entries, in order.
pub open spec fn entry_statuses(entries: Seq<EntryRow>) -> Seq<Seq<char>> {
    entries.map_values(|e: EntryRow| e.status@)
}

/// How many entries have each status (the page's status counts).
pub fn status_counts(entries: &Vec<EntryRow>) -> (res: Vec<KeyCount>)
    ensures
        forall|a: int, b: int| 0 <= a < b < res.len() ==> res@[a].key@ != res@[b].key@,
        forall|a: int| 0 <= a < res.len() ==> (#[trigger] res@[a]).count == count_of(entry_statuses(entries@), res@[a].key@) && res@[a].count > 0,
        forall|i: int| 0 <= i < entries.len() ==> keys_of(res@).contains((#[trigger] entries@[i]).status@),
{
    let mut keys: Vec<String> = Vec::new();
    let mut i: usize = 0;
    while i < entries.len()
        invariant
            i <= entries.len(),
            keys.len() == i,
            views(keys@) == entry_statuses(entries@).take(i as int),
        decreases entries.len() - i,
    {
        let ghost before = keys@;
        keys.push(owned(entries[i].status.as_str()));
        assert forall|j: int| 0 <= j < i + 1 implies #[trigger] views(keys@)[j] == entry_statuses(entries@).take(i + 1)[j] by {
            if j < i {
                assert(views(keys@)[j] == keys@[j]@);
                assert(keys@[j] == before[j]);
                assert(views(before)[j] == before[j]@);
            }
        }
        assert(views(keys@) =~= entry_statuses(entries@).take(i + 1));
        i = i + 1;
    }
    assert(entry_statuses(entries@).take(entries.len() as int) =~= entry_statuses(entries@));
    let (r, owner) = counts_by_key(&keys);
    assert forall|i: int| 0 <= i < entries.len() implies keys_of(r@).contains((#[trigger] entries@[i]).status@) by {
        assert(owner@.len() == keys.len());
        let a = owner@[i] as int;
        assert(views(keys@)[i] == keys@[i]@);
        assert(keys_of(r@)[a] == r@[a].key@);
    }
    r
}

/// How many of the entries have the given status (the count shown on its
/// filter button; 0 when there is none).
pub fn count_with_status(entries: &Vec<EntryRow>, status: &str) -> (c: usize)
    ensures
        c == count_of(entry_statuses(entries@), status@),
{
    let mut c: usize = 0;
    let mut i: usize = 0;
    assert(entry_statuses(entries@).take(0) =~= Seq::<Seq<char>>::empty());
    while i < entries.len()
        invariant
            i <= entries.len(),
            c <= i,
            c == count_of(entry_statuses(entries@).take(i as int), status@),
        decreases entries.len() - i,
    {
        assert(entry_statuses(entries@).take(i + 1).drop_last() =~= entry_statuses(entries@).take(i as int));
        if str_eq(entries[i].status.as_str(), status) {
            c = c + 1;
        }
        i = i + 1;
    }
    assert(entry_statuses(entries@).take(entries.len() as int) =~= entry_statuses(entries@));
    c
}

// ---------------------------------------------------------------------------
// Selected entries
// ---------------------------------------------------------------------------

/// A set of entry ids (the page's selection).
#[derive(Debug)]
pub struct Selection {
    ids: std::collections::HashSet<i64>,
}

impl View for Selection {
    type V = Set<i64>;

    closed spec fn view(&self) -> Set<i64> {
        self.ids@
    }
}

/// The selection after clicking an entry's box: the id leaves if it was in,
/// else it joins.
pub open spec fn toggled(s: Set<i64>, id: i64) -> Set<i64> {
    if s.contains(id) { s.remove(id) } else { s.insert(id) }
}

/// Law: clicking an entry's box twice leaves the selection as it was.
pub proof fn lemma_toggle_twice(s: Set<i64>, id: i64)
    ensures
        toggled(toggled(s, id), id) == s,
{
    if s.contains(id) {
        assert(s.remove(id).insert(id) =~= s);
    } else {
        assert(s.insert(id).remove(id) =~= s);
    }
}

impl Selection {
    /// The empty selection.
    pub fn new() -> (s: Selection)
        ensures
            s@ == Set::<i64>::empty(),
    {
        Selection { ids: std::collections::HashSet::new() }
    }

    /// Whether `id` is selected.
    pub fn contains(&self, id: i64) -> (r: bool)
        ensures
            r == self@.contains(id),
    {
        broadcast use vstd::std_specs::hash::group_hash_axioms;
        self.ids.contains(&id)
    }

    /// How many ids are selected.
    pub fn len(&self) -> (n: usize)
        ensures
            n == self@.len(),
    {
        broadcast use vstd::std_specs::hash::group_hash_axioms;
        self.ids.len()
    }

    /// Whether nothing is selected.
    pub fn is_empty(&self) -> (r: bool)
        ensures
            r == (self@.len() == 0),
    {
        self.len() == 0
    }

    /// The selected ids, each once.
    pub fn ids(&self) -> (v: Vec<i64>)
        ensures
            v@.to_set() == self@,
            v@.no_duplicates(),
    {
        broadcast use vstd::std_specs::hash::group_hash_axioms;
        let mut v: Vec<i64> = Vec::new();
        let ghost keys = self.ids.iter().remaining().unref();
        for x in it: self.ids.iter()
            invariant
                keys == it.seq().map_values(|r: &i64| *r),
                v@ == keys.take(it.index() as int),
        {
            v.push(*x);
            assert(v@ =~= keys.take(it.index() + 1));
        }
        assert(v@ =~= keys);
        v
    }

    /// Selects `id` (no change when it is selected already).
    pub fn insert(&mut self, id: i64)
        ensures
            final(self)@ == old(self)@.insert(id),
    {
        broadcast use vstd::std_specs::hash::group_hash_axioms;
        self.ids.insert(id);
    }

    /// Clears the selection.
    pub fn clear(&mut self)
        ensures
            final(self)@ == Set::<i64>::empty(),
    {
        self.ids.clear();
    }

    /// Clicking an entry's box: `id` leaves the selection if it was in, else
    /// it joins.
    pub fn toggle(&mut self, id: i64)
        ensures
            final(self)@ == toggled(old(self)@, id),
    {
        broadcast use vstd::std_specs::hash::group_hash_axioms;
        if self.ids.contains(&id) {
            self.ids.remove(&id);
        } else {
            self.ids.insert(id);
        }
    }
}

/// Whether an entry can be selected: drafts and posted entries can.
pub open spec fn selectable(e: EntryRow) -> bool {
    e.status@ == "draft"@ || e.status@ == "posted"@
}

/// The ids of the entries that can be selected.
pub open spec fn selectable_ids(entries: Seq<EntryRow>) -> Set<i64>
    decreases entries.len(),
{
    if entries.len() == 0 {
        Set::empty()
    } else {
        let rest = selectable_ids(entries.drop_last());
        if selectable(entries.last()) { rest.insert(entries.last().id) } else { rest }
    }
}

fn is_selectable(e: &EntryRow) -> (r: bool)
    ensures
        r == selectable(*e),
{
    str_eq(e.status.as_str(), "draft") || str_eq(e.status.as_str(), "posted")
}

/// The selection holding every selectable entry.
pub fn all_selectable(entries: &Vec<EntryRow>) -> (s: Selection)
    ensures
        s@ == selectable_ids(entries@),
{
    let mut s = Selection::new();
    let mut i: usize = 0;
    while i < entries.len()
        invariant
            i <= entries.len(),
            s@ == selectable_ids(entries@.take(i as int)),
        decreases entries.len() - i,
    {
        assert(entries@.take(i + 1).drop_last() =~= entries@.take(i as int));
        assert(entries@.take(i + 1).last() == entries@[i as int]);
        if is_selectable(&entries[i]) {
            s.insert(entries[i].id);
        }
        i = i + 1;
    }
    assert(entries@.take(entries.len() as int) =~= entries@);
    s
}

/// Whether every selectable entry is selected.
fn covers(sel: &Selection, all: &Selection) -> (r: bool)
    ensures
        r == all@.subset_of(sel@),
{
    let ids = all.ids();
    let mut i: usize = 0;
    while i < ids.len()
        invariant
            i <= ids.len(),
            ids@.to_set() == all@,
            forall|k: int| 0 <= k < i ==> sel@.contains(ids@[k]),
        decreases ids.len() - i,
    {
        if !sel.contains(ids[i]) {
            assert(all@.contains(ids@[i as int]));
            return false;
        }
        i = i + 1;
    }
    assert forall|x: i64| all@.contains(x) implies sel@.contains(x) by {
        assert(ids@.contains(x));
    }
    true
}

/// The header box is ticked when there are selectable entries and all of
/// them are selected.
pub fn all_selected(sel: &Selection, entries: &Vec<EntryRow>) -> (r: bool)
    ensures
        r == (selectable_ids(entries@).len() > 0 && selectable_ids(entries@).subset_of(sel@)),
{
    let all = all_selectable(entries);
    !all.is_empty() && covers(sel, &all)
}

/// Clicking the header box: when every selectable entry is selected the
/// selection is cleared, else it becomes exactly the selectable entries.
pub fn toggle_all(sel: &mut Selection, entries: &Vec<EntryRow>)
    ensures
        final(sel)@ == (if selectable_ids(entries@).subset_of(old(sel)@) {
            Set::<i64>::empty()
        } else {
            selectable_ids(entries@)
        }),
{
    let all = all_selectable(entries);
    if covers(sel, &all) {
        sel.clear();
    } else {
        *sel = all;
    }
}

/// How many entries with `status` are selected.
pub open spec fn selected_with_status_count(entries: Seq<EntryRow>, sel: Set<i64>, status: Seq<char>) -> nat
    decreases entries.len(),
{
    if entries.len() == 0 {
        0
    } else {
        let e = entries.last();
        selected_with_status_count(entries.drop_last(), sel, status)
            + if e.status@ == status && sel.contains(e.id) { 1nat } else { 0nat }
    }
}

/// Law: the count of selected entries with a status never exceeds the count
/// of entries with that status; it is that count when every entry is
/// selected, and 0 when nothing is.
pub proof fn lemma_selected_counts(entries: Seq<EntryRow>, sel: Set<i64>, status: Seq<char>)
    ensures
        selected_with_status_count(entries, sel, status) <= count_of(entry_statuses(entries), status),
        (forall|i: int| 0 <= i < entries.len() ==> sel.contains(#[trigger] entries[i].id))
            ==> selected_with_status_count(entries, sel, status) == count_of(entry_statuses(entries), status),
        sel.is_empty() ==> selected_with_status_count(entries, sel, status) == 0,
    decreases entries.len(),
{
    if entries.len() > 0 {
        let rest = entries.drop_last();
        lemma_selected_counts(rest, sel, status);
        assert(entry_statuses(entries).drop_last() =~= entry_statuses(rest));
        assert(entry_statuses(entries).last() == entries.last().status@);
        if forall|i: int| 0 <= i < entries.len() ==> sel.contains(#[trigger] entries[i].id) {
            assert forall|i: int| 0 <= i < rest.len() implies sel.contains(#[trigger] rest[i].id) by {
                assert(rest[i] == entries[i]);
            }
            assert(sel.contains(entries[entries.len() - 1].id));
        }
        if sel.is_empty() {
            assert(!sel.contains(entries.last().id));
        }
    }
}

/// How many selected entries have `status` (the counts of drafts and of
/// posted entries shown on the bulk buttons).
pub fn count_selected_with_status(entries: &Vec<EntryRow>, sel: &Selection, status: &str) -> (c: usize)
    ensures
        c == selected_with_status_count(entries@, sel@, status@),
{
    let mut c: usize = 0;
    let mut i: usize = 0;
    while i < entries.len()
        invariant
            i <= entries.len(),
            c <= i,
            c == selected_with_status_count(entries@.take(i as int), sel@, status@),
        decreases entries.len() - i,
    {
        assert(entries@.take(i + 1).drop_last() =~= entries@.take(i as int));
        assert(entries@.take(i + 1).last() == entries@[i as int]);
        if str_eq(entries[i].status.as_str(), status) && sel.contains(entries[i].id) {
            c = c + 1;
        }
        i = i + 1;
    }
    assert(entries@.take(entries.len() as int) =~= entries@);
    c
}

/// Whether some entry with this id is a draft.
pub open spec fn is_draft_id(entries: Seq<EntryRow>, id: i64) -> bool {
    exists|j: int| 0 <= j < entries.len() && (#[trigger] entries[j]).id == id && entries[j].status@ == "draft"@
}

fn draft_id(entries: &Vec<EntryRow>, id: i64) -> (r: bool)
    ensures
        r == is_draft_id(entries@, id),
{
    let mut j: usize = 0;
    while j < entries.len()
        invariant
            j <= entries.len(),
            forall|k: int| 0 <= k < j ==> !((#[trigger] entries@[k]).id == id && entries@[k].status@ == "draft"@),
        decreases entries.len() - j,
    {
        if entries[j].id == id && str_eq(entries[j].status.as_str(), "draft") {
            assert(entries@[j as int].id == id);
            return true;
        }
        j = j + 1;
    }
    false
}

/// The selected ids that bulk delete sends: those of draft entries.
pub fn deletable_ids(sel: &Selection, entries: &Vec<EntryRow>) -> (v: Vec<i64>)
    ensures
        v@.no_duplicates(),
        forall|id: i64| v@.contains(id) <==> (sel@.contains(id) && is_draft_id(entries@, id)),
{
    let ids = sel.ids();
    let mut v: Vec<i64> = Vec::new();
    let mut i: usize = 0;
    while i < ids.len()
        invariant
            i <= ids.len(),
            ids@.to_set() == sel@,
            ids@.no_duplicates(),
            v@.no_duplicates(),
            forall|x: i64| v@.contains(x) <==> ((exists|k: int| 0 <= k < i && #[trigger] ids@[k] == x) && is_draft_id(entries@, x)),
        decreases ids.len() - i,
    {
        let x = ids[i];
        let ghost before = v@;
        let d = draft_id(entries, x);
        if d {
            assert(!before.contains(x)) by {
                if before.contains(x) {
                    let k = choose|k: int| 0 <= k < i && #[trigger] ids@[k] == x;
                    assert(ids@[i as int] == x);
                }
            }
            v.push(x);
        }
        assert forall|y: i64| v@.contains(y) <==> ((exists|k: int| 0 <= k < i + 1 && #[trigger] ids@[k] == y) && is_draft_id(entries@, y)) by {
            if v@.contains(y) && !before.contains(y) {
                assert(y == x);
                assert(ids@[i as int] == y);
            }
            if before.contains(y) {
                let k = choose|k: int| 0 <= k < before.len() && before[k] == y;
                assert(v@[k] == y);
                let k2 = choose|k2: int| 0 <= k2 < i && #[trigger] ids@[k2] == y;
                assert(ids@[k2] == y);
            }
            if (exists|k: int| 0 <= k < i + 1 && #[trigger] ids@[k] == y) && is_draft_id(entries@, y) {
                let k = choose|k: int| 0 <= k < i + 1 && #[trigger] ids@[k] == y;
                if k == i {
                    assert(v@[v@.len() - 1] == y);
                } else {
                    assert(before.contains(y));
                    let k3 = choose|k3: int| 0 <= k3 < before.len() && before[k3] == y;
                    assert(v@[k3] == y);
                }
            }
        }
        i = i + 1;
    }
    assert forall|id: i64| v@.contains(id) <==> (sel@.contains(id) && is_draft_id(entries@, id)) by {
        if sel@.contains(id) {
            assert(ids@.contains(id));
            let k = choose|k: int| 0 <= k < ids@.len() && ids@[k] == id;
            assert(ids@[k] == id);
        }
        if exists|k: int| 0 <= k < ids.len() && #[trigger] ids@[k] == id {
            let k = choose|k: int| 0 <= k < ids.len() && #[trigger] ids@[k] == id;
            assert(ids@.contains(id));
        }
    }
    v
}

// ---------------------------------------------------------------------------
// The entry form's VAT fields
// ---------------------------------------------------------------------------

/// `s` padded on the left with zeros to two characters (`{:0>2}`).
pub open spec fn pad2(s: Seq<char>) -> Seq<char> {
    zeros(2 - s.len()) + s
}

/// The VAT period as the edit form shows it: a stored `DD.MM.YYYY` (any text
/// holding a `.` and at least three `.`-pieces) becomes `YYYY-MM` from the
/// third and second pieces, the month padded to two digits; anything else
/// stays as it is.
pub open spec fn edit_vat_period(raw: Seq<char>) -> Seq<char> {
    let parts = split_seq(raw, '.');
    if raw.contains('.') && parts.len() >= 3 {
        parts[2] + seq!['-'] + pad2(parts[1])
    } else {
        raw
    }
}

pub fn vat_period_for_edit(raw: &str) -> (r: String)
    ensures
        r@ == edit_vat_period(raw@),
{
    if contains_char(raw, '.') {
        let parts = split_on(raw, '.');
        if parts.len() >= 3 {
            let mut r = owned(parts[2].as_str());
            push_char(&mut r, '-');
            let month = parts[1].as_str();
            let n = month.unicode_len();
            if n < 2 {
                let mut k: usize = n;
                let ghost head = r@;
                while k < 2
                    invariant
                        n <= k <= 2,
                        r@ == head + zeros(k - n),
                    decreases 2 - k,
                {
                    push_char(&mut r, '0');
                    assert(head + zeros(k + 1 - n) =~= (head + zeros(k - n)).push('0'));
                    k = k + 1;
                }
                assert(zeros(2 - n) =~= zeros(2 - month@.len()));
            } else {
                assert(zeros(2 - month@.len()) =~= Seq::<char>::empty());
            }
            r.append(month);
            assert(r@ =~= parts@[2]@ + seq!['-'] + pad2(parts@[1]@));
            return r;
        }
    }
    owned(raw)
}

/// The kind of an entry as the edit form shows it: a purchase when a purchase
/// VAT operation is stored, else a sale when a sales operation is, else an
/// entry outside VAT.
pub open spec fn edit_entry_kind(purchase_op: Seq<char>, sales_op: Seq<char>) -> Seq<char> {
    if purchase_op.len() > 0 { "PURCHASE"@ } else if sales_op.len() > 0 { "SALE"@ } else { "NON_VAT"@ }
}

/// The document type and VAT operation the edit form starts with. A stored
/// operation reads `doctype|operation`: the first piece is the document type
/// and the second, when there is one, the operation (else the default
/// operation of its kind).
pub open spec fn edit_vat_choice(purchase_op: Seq<char>, sales_op: Seq<char>) -> (Seq<char>, Seq<char>) {
    if purchase_op.len() > 0 {
        let parts = split_seq(purchase_op, '|');
        (parts[0], if parts.len() > 1 { parts[1] } else { "PURCHASE_CREDIT"@ })
    } else if sales_op.len() > 0 {
        let parts = split_seq(sales_op, '|');
        (parts[0], if parts.len() > 1 { parts[1] } else { "DOMESTIC_SALE"@ })
    } else {
        ("01"@, "PURCHASE_CREDIT"@)
    }
}

pub fn edit_entry_type(purchase_op: &str, sales_op: &str) -> (r: &'static str)
    ensures
        r@ == edit_entry_kind(purchase_op@, sales_op@),
{
    if !purchase_op.is_empty() { "PURCHASE" } else if !sales_op.is_empty() { "SALE" } else { "NON_VAT" }
}

fn split_operation(op: &str, default_op: &str) -> (r: (String, String))
    ensures
        r.0@ == split_seq(op@, '|')[0],
        r.1@ == (if split_seq(op@, '|').len() > 1 { split_seq(op@, '|')[1] } else { default_op@ }),
{
    let parts = split_on(op, '|');
    proof {
        crate::text::lemma_split_nonempty(op@, '|');
    }
    let doc = owned(parts[0].as_str());
    let vat = if parts.len() > 1 { owned(parts[1].as_str()) } else { owned(default_op) };
    (doc, vat)
}

pub fn edit_vat_fields(purchase_op: &str, sales_op: &str) -> (r: (String, String))
    ensures
        (r.0@, r.1@) == edit_vat_choice(purchase_op@, sales_op@),
{
    if !purchase_op.is_empty() {
        split_operation(purchase_op, "PURCHASE_CREDIT")
    } else if !sales_op.is_empty() {
        split_operation(sales_op, "DOMESTIC_SALE")
    } else {
        (owned("01"), owned("PURCHASE_CREDIT"))
    }
}

/// The VAT operation fields saved with an entry: `doctype|operation` as the
/// purchase operation for a purchase, as the sales operation for a sale.
pub open spec fn saved_vat_operations(kind: Seq<char>, doc_type: Seq<char>, vat_op: Seq<char>) -> (Option<Seq<char>>, Option<Seq<char>>) {
    let op = doc_type + seq!['|'] + vat_op;
    (if kind == "PURCHASE"@ { Some(op) } else { None }, if kind == "SALE"@ { Some(op) } else { None })
}

pub fn vat_operations(kind: &str, doc_type: &str, vat_op: &str) -> (r: (Option<String>, Option<String>))
    ensures
        (opt_view(r.0), opt_view(r.1)) == saved_vat_operations(kind@, doc_type@, vat_op@),
{
    let purchase = if str_eq(kind, "PURCHASE") {
        let mut s = owned(doc_type);
        push_char(&mut s, '|');
        s.append(vat_op);
        Some(s)
    } else {
        None
    };
    let sales = if str_eq(kind, "SALE") {
        let mut s = owned(doc_type);
        push_char(&mut s, '|');
        s.append(vat_op);
        Some(s)
    } else {
        None
    };
    (purchase, sales)
}

/// The VAT period saved with an entry: none for an entry outside VAT.
pub fn vat_period_value(kind: &str, period: &str) -> (r: Option<String>)
    ensures
        opt_view(r) == (if kind@ != "NON_VAT"@ { Some(period@) } else { None }),
{
    if !str_eq(kind, "NON_VAT") { Some(owned(period)) } else { None }
}

/// The counterpart id saved with an entry: none when the field is empty, else
/// the field read as a number (none when it is not one).
pub fn counterpart_id_value(text: &str) -> (r: Option<i64>)
    ensures
        r == (if text@.len() == 0 { None } else { parsed_i64(text@) }),
{
    if text.is_empty() { None } else { parse_i64(text) }
}

/// The VAT period that a date typed into the form selects: its first seven
/// bytes (`YYYY-MM`), when it has that many.
pub fn vat_period_from_date(date: &str) -> (r: Option<String>)
    requires
        encode_utf8_of(date@).len() <= usize::MAX,
        encode_utf8_of(date@).len() >= 7 ==> vstd::utf8::is_char_boundary(encode_utf8_of(date@), 7),
    ensures
        r.is_some() == (encode_utf8_of(date@).len() >= 7),
        r matches Some(p) ==> encode_utf8_of(p@) == encode_utf8_of(date@).take(7),
{
    byte_prefix(date, 7)
}

// ---------------------------------------------------------------------------
// Lines, accounts and counterparts in the form
// ---------------------------------------------------------------------------

/// The lines after a line's remove button: it works while the entry has more
/// than two lines.
pub open spec fn line_removed<T>(lines: Seq<T>, idx: int) -> Seq<T> {
    if lines.len() > 2 { lines.remove(idx) } else { lines }
}

/// A line's remove button works while the entry has more than two lines.
pub fn remove_line<T>(lines: &mut Vec<T>, idx: usize)
    requires
        old(lines).len() > 2 ==> idx < old(lines).len(),
    ensures
        final(lines)@ == line_removed(old(lines)@, idx as int),
{
    if lines.len() > 2 {
        lines.remove(idx);
    }
}

/// "+ Добави ред": a line joins the end of the entry.
pub fn add_line<T>(lines: &mut Vec<T>, line: T)
    ensures
        final(lines)@ == old(lines)@.push(line),
{
    lines.push(line);
}

/// The lines of a fresh form: two (empty) lines.
pub fn fresh_lines<T>(first: T, second: T) -> (lines: Vec<T>)
    ensures
        lines@ == seq![first, second],
{
    let mut lines: Vec<T> = Vec::new();
    lines.push(first);
    lines.push(second);
    lines
}

/// Law: an entry form never has fewer than two lines: a fresh form has two,
/// adding keeps them, and removing stops at two.
pub proof fn lemma_lines_stay_two<T>(lines: Seq<T>, idx: int, line: T, first: T, second: T)
    requires
        lines.len() >= 2,
        lines.len() > 2 ==> 0 <= idx < lines.len(),
    ensures
        line_removed(lines, idx).len() >= 2,
        lines.push(line).len() >= 2,
        seq![first, second].len() == 2,
{
}

/// Only a draft can be edited or deleted.
pub open spec fn modifiable(e: EntryRow) -> bool {
    e.status@ == "draft"@
}

pub fn can_modify(e: &EntryRow) -> (r: bool)
    ensures
        r == modifiable(*e),
{
    str_eq(e.status.as_str(), "draft")
}

/// The edit button's hint.
pub fn edit_hint(e: &EntryRow) -> (r: &'static str)
    ensures
        r@ == (if modifiable(*e) { "Редактиране"@ } else { "Не може да се редактира осчетоводен запис"@ }),
{
    if can_modify(e) { "Редактиране" } else { "Не може да се редактира осчетоводен запис" }
}

/// The delete button's hint.
pub fn delete_hint(e: &EntryRow) -> (r: &'static str)
    ensures
        r@ == (if modifiable(*e) { "Изтриване"@ } else { "Не може да се изтрие осчетоводен запис"@ }),
{
    if can_modify(e) { "Изтриване" } else { "Не може да се изтрие осчетоводен запис" }
}

/// The status of the first entry with `id` in the list (empty where there is
/// none).
pub open spec fn status_of(entries: Seq<EntryRow>, id: i64) -> Seq<char>
    decreases entries.len(),
{
    if entries.len() == 0 {
        Seq::empty()
    } else if entries[0].id == id {
        entries[0].status@
    } else {
        status_of(entries.drop_first(), id)
    }
}

/// The entry shown in the view dialog can be posted when the list holds it
/// as a draft.
pub fn can_post(entries: &Vec<EntryRow>, id: i64) -> (r: bool)
    ensures
        r == (status_of(entries@, id) == "draft"@),
{
    proof {
        reveal_strlit("");
        reveal_strlit("draft");
    }
    let mut i: usize = 0;
    assert(entries@.skip(0) =~= entries@);
    while i < entries.len()
        invariant
            i <= entries.len(),
            status_of(entries@, id) == status_of(entries@.skip(i as int), id),
        decreases entries.len() - i,
    {
        assert(entries@.skip(i as int).drop_first() =~= entries@.skip(i + 1));
        assert(entries@.skip(i as int)[0] == entries@[i as int]);
        if entries[i].id == id {
            return str_eq(entries[i].status.as_str(), "draft");
        }
        i = i + 1;
    }
    assert(entries@.skip(i as int) =~= Seq::<EntryRow>::empty());
    proof {
        reveal_strlit("draft");
    }
    false
}

/// The text and id fields of a new or edited entry as saved (its lines and
/// totals, floats, are added by the caller): a draft without reference, the
/// optional dates and numbers only where given, the VAT period and operation
/// of its kind, and the counterpart where one is chosen.
#[derive(Debug, Clone)]
pub struct EntryFields {
    pub entry_date: String,
    pub document_date: Option<String>,
    pub description: String,
    pub reference: Option<String>,
    pub status: String,
    pub document_number: Option<String>,
    pub vat_period: Option<String>,
    pub vat_purchase_operation: Option<String>,
    pub vat_sales_operation: Option<String>,
    pub counterpart_id: Option<i64>,
}

pub open spec fn given(s: Seq<char>) -> Option<Seq<char>> {
    if s.len() > 0 { Some(s) } else { None }
}

/// The fields of the entry form as they are saved.
pub fn entry_fields(entry_date: &str, document_date: &str, description: &str, document_number: &str,
    kind: &str, doc_type: &str, vat_op: &str, vat_period: &str, counterpart: &str) -> (r: EntryFields)
    ensures
        r.entry_date@ == entry_date@,
        opt_view(r.document_date) == given(document_date@),
        r.description@ == description@,
        r.reference.is_none(),
        r.status@ == "draft"@,
        opt_view(r.document_number) == given(document_number@),
        opt_view(r.vat_period) == (if kind@ != "NON_VAT"@ { Some(vat_period@) } else { None }),
        (opt_view(r.vat_purchase_operation), opt_view(r.vat_sales_operation)) == saved_vat_operations(kind@, doc_type@, vat_op@),
        r.counterpart_id == (if counterpart@.len() == 0 { None } else { parsed_i64(counterpart@) }),
{
    let (purchase, sales) = vat_operations(kind, doc_type, vat_op);
    let document_date_opt = non_empty(document_date);
    let document_number_opt = non_empty(document_number);
    EntryFields {
        entry_date: owned(entry_date),
        document_date: document_date_opt,
        description: owned(description),
        reference: None,
        status: owned("draft"),
        document_number: document_number_opt,
        vat_period: vat_period_value(kind, vat_period),
        vat_purchase_operation: purchase,
        vat_sales_operation: sales,
        counterpart_id: counterpart_id_value(counterpart),
    }
}

/// The code of the first account with this id, if any.
pub open spec fn code_of_account(accounts: Seq<Account>, id: i64) -> Seq<char>
    decreases accounts.len(),
{
    if accounts.len() == 0 {
        Seq::empty()
    } else if accounts[0].id == id {
        accounts[0].code@
    } else {
        code_of_account(accounts.drop_first(), id)
    }
}

/// A stored line's account code: the code the line carries, or when it
/// carries none that of the first account with the line's account id ("" when
/// there is none).
pub fn line_account_code(line_code: &str, account_id: i64, accounts: &Vec<Account>) -> (r: String)
    ensures
        r@ == (if line_code@.len() > 0 { line_code@ } else { code_of_account(accounts@, account_id) }),
{
    if !line_code.is_empty() {
        return owned(line_code);
    }
    let mut i: usize = 0;
    assert(accounts@.skip(0) =~= accounts@);
    while i < accounts.len()
        invariant
            i <= accounts.len(),
            line_code@.len() == 0,
            code_of_account(accounts@, account_id) == code_of_account(accounts@.skip(i as int), account_id),
        decreases accounts.len() - i,
    {
        assert(accounts@.skip(i as int)[0] == accounts@[i as int]);
        assert(accounts@.skip(i as int).drop_first() =~= accounts@.skip(i + 1));
        if accounts[i].id == account_id {
            assert(accounts@.skip(i as int).len() > 0);
            assert(accounts@.skip(i as int)[0].id == account_id);
            assert(code_of_account(accounts@.skip(i as int), account_id) == accounts@.skip(i as int)[0].code@);
            return owned(accounts[i].code.as_str());
        }
        i = i + 1;
    }
    assert(accounts@.skip(i as int) =~= Seq::<Account>::empty());
    proof {
        reveal_strlit("");
    }
    String::new()
}

/// Whether a counterpart is offered for a (lowercased) search: every one for
/// an empty search, else those whose lowercased name or VAT number holds it.
pub open spec fn counterpart_offered(c: Counterpart, search: Seq<char>) -> bool {
    search.len() == 0 || folded_match(c.name@, search)
        || (c.vat_number matches Some(v) && folded_match(v@, search))
}

/// Whether an account is offered for a (lowercased) search: every one for an
/// empty search, else those whose lowercased code or name holds it.
pub open spec fn account_offered(a: Account, search: Seq<char>) -> bool {
    search.len() == 0 || folded_match(a.code@, search) || folded_match(a.name@, search)
}

/// The counterparts offered in the picker, by index.
pub fn filter_counterparts(counterparts: &Vec<Counterpart>, search: &str) -> (r: Vec<usize>)
    ensures
        forall|a: int, b: int| 0 <= a < b < r.len() ==> r@[a] < r@[b],
        forall|a: int| 0 <= a < r.len() ==> (#[trigger] r@[a]) < counterparts.len(),
        forall|i: int| 0 <= i < counterparts.len() ==> (r@.contains(i as usize)
            <==> counterpart_offered(#[trigger] counterparts@[i], lowercase(search@))),
{
    let q = to_lowercase(search);
    let mut flags: Vec<bool> = Vec::new();
    let mut i: usize = 0;
    while i < counterparts.len()
        invariant
            q@ == lowercase(search@),
            i <= counterparts.len(),
            flags.len() == i,
            forall|j: int| 0 <= j < i ==> #[trigger] flags@[j] == counterpart_offered(counterparts@[j], q@),
        decreases counterparts.len() - i,
    {
        let c = &counterparts[i];
        let ok = q.as_str().is_empty() || folded_contains(c.name.as_str(), q.as_str())
            || opt_folded_contains(&c.vat_number, q.as_str());
        flags.push(ok);
        i = i + 1;
    }
    let r = indices_where(&flags);
    assert forall|i: int| 0 <= i < counterparts.len() implies (r@.contains(i as usize)
        <==> counterpart_offered(#[trigger] counterparts@[i], lowercase(search@))) by {
        assert(flags@[i] == counterpart_offered(counterparts@[i], q@));
    }
    r
}

/// The accounts offered in the picker, by index.
pub fn filter_accounts(accounts: &Vec<Account>, search: &str) -> (r: Vec<usize>)
    ensures
        forall|a: int, b: int| 0 <= a < b < r.len() ==> r@[a] < r@[b],
        forall|a: int| 0 <= a < r.len() ==> (#[trigger] r@[a]) < accounts.len(),
        forall|i: int| 0 <= i < accounts.len() ==> (r@.contains(i as usize)
            <==> account_offered(#[trigger] accounts@[i], lowercase(search@))),
{
    let q = to_lowercase(search);
    let mut flags: Vec<bool> = Vec::new();
    let mut i: usize = 0;
    while i < accounts.len()
        invariant
            q@ == lowercase(search@),
            i <= accounts.len(),
            flags.len() == i,
            forall|j: int| 0 <= j < i ==> #[trigger] flags@[j] == account_offered(accounts@[j], q@),
        decreases accounts.len() - i,
    {
        let a = &accounts[i];
        let ok = q.as_str().is_empty() || folded_contains(a.code.as_str(), q.as_str())
            || folded_contains(a.name.as_str(), q.as_str());
        flags.push(ok);
        i = i + 1;
    }
    let r = indices_where(&flags);
    assert forall|i: int| 0 <= i < accounts.len() implies (r@.contains(i as usize)
        <==> account_offered(#[trigger] accounts@[i], lowercase(search@))) by {
        assert(flags@[i] == account_offered(accounts@[i], q@));
    }
    r
}

/// Law: the counterpart picker of the entry form searches by name and VAT
/// number. An empty search offers every counterpart; otherwise one is
/// offered exactly when its lowercased name or VAT number holds the
/// (lowercased) search. `r` is what `filter_counterparts` gives.
pub proof fn lemma_counterpart_picker(counterparts: Seq<Counterpart>, query: Seq<char>, r: Seq<usize>)
    requires
        forall|i: int| 0 <= i < counterparts.len() ==> (r.contains(i as usize)
            <==> counterpart_offered(#[trigger] counterparts[i], query)),
    ensures
        forall|i: int| 0 <= i < counterparts.len() ==> (r.contains(i as usize) <==> (query.len() == 0
            || has_substring(lowercase((#[trigger] counterparts[i]).name@), query)
            || (counterparts[i].vat_number matches Some(v) && has_substring(lowercase(v@), query)))),
{
}

/// Law: the account picker of the entry form searches by code and name. An
/// empty search offers every account; otherwise one is offered exactly when
/// its lowercased code or name holds the (lowercased) search. `r` is what
/// `filter_accounts` gives.
pub proof fn lemma_account_picker(accounts: Seq<Account>, query: Seq<char>, r: Seq<usize>)
    requires
        forall|i: int| 0 <= i < accounts.len() ==> (r.contains(i as usize)
            <==> account_offered(#[trigger] accounts[i], query)),
    ensures
        forall|i: int| 0 <= i < accounts.len() ==> (r.contains(i as usize) <==> (
            has_substring(lowercase((#[trigger] accounts[i]).code@), query)
            || has_substring(lowercase(accounts[i].name@), query)
            || query.len() == 0)),
{
}

/// Law: only drafts can be edited, deleted or posted from the view dialog,
/// drafts and posted entries can be selected (voided ones cannot), and bulk
/// delete sends exactly the selected ids of drafts.
pub proof fn lemma_draft_rules(e: EntryRow, entries: Seq<EntryRow>, sel: Set<i64>, v: Seq<i64>, id: i64)
    requires
        forall|x: i64| v.contains(x) <==> (sel.contains(x) && is_draft_id(entries, x)),
    ensures
        modifiable(e) <==> e.status@ == "draft"@,
        selectable(e) <==> (e.status@ == "draft"@ || e.status@ == "posted"@),
        e.status@ == "voided"@ ==> !selectable(e) && !modifiable(e),
        v.contains(id) <==> (sel.contains(id)
            && exists|j: int| 0 <= j < entries.len() && (#[trigger] entries[j]).id == id && entries[j].status@ == "draft"@),
        entries.len() > 0 && entries[0].id == id ==> (status_of(entries, id) == "draft"@ <==> entries[0].status@ == "draft"@),
{
    reveal_strlit("voided");
    reveal_strlit("draft");
    reveal_strlit("posted");
    if e.status@ == "voided"@ {
        assert(e.status@[0] != "draft"@[0]);
        assert(e.status@[0] != "posted"@[0]);
    }
}

// ---------------------------------------------------------------------------
// Addresses
// ---------------------------------------------------------------------------

/// The address of a page of the entry list:
/// `{base}/journal_entries?page={page}&per_page={per_page}`, then
/// `&status={status}` when a status is chosen and `&q={query}` (percent-encoded)
/// when there is a query.
pub open spec fn entries_url(base: Seq<char>, page: int, per_page: int, status: Seq<char>, query: Seq<char>) -> Seq<char> {
    base + "/journal_entries?page="@ + int_text(page) + "&per_page="@ + int_text(per_page)
        + (if status.len() > 0 { "&status="@ + status } else { Seq::empty() })
        + (if query.len() > 0 { "&q="@ + percent_encoded(encode_utf8_of(query)) } else { Seq::empty() })
}

pub fn journal_entries_url(base: &str, page: i32, per_page: i32, status: &str, query: &str) -> (r: String)
    ensures
        r@ == entries_url(base@, page as int, per_page as int, status@, query@),
{
    let mut r = concat(base, "/journal_entries?page=");
    let p = int_to_string(page as i64);
    r.append(p.as_str());
    r.append("&per_page=");
    let pp = int_to_string(per_page as i64);
    r.append(pp.as_str());
    let ghost head = r@;
    if !status.is_empty() {
        r.append("&status=");
        r.append(status);
    }
    let ghost mid = r@;
    assert(mid == head + (if status@.len() > 0 { "&status="@ + status@ } else { Seq::empty() }));
    if !query.is_empty() {
        r.append("&q=");
        let e = url_encode(query);
        r.append(e.as_str());
    }
    assert(r@ =~= entries_url(base@, page as int, per_page as int, status@, query@));
    r
}

/// The entry to open for editing from the page's query string: the value
/// after a leading `?edit=`, or else that of the first `&`-piece starting
/// with `edit=`, read as a number.
pub open spec fn edit_id_in_query(search: Seq<char>) -> Option<i64> {
    if has_prefix(search, "?edit="@) {
        parsed_i64(search.skip(6))
    } else {
        let pieces = split_seq(search, '&');
        if exists|k: int| 0 <= k < pieces.len() && has_prefix(#[trigger] pieces[k], "edit="@) {
            let k = choose|k: int| 0 <= k < pieces.len() && has_prefix(#[trigger] pieces[k], "edit="@)
                && forall|m: int| 0 <= m < k ==> !has_prefix(#[trigger] pieces[m], "edit="@);
            parsed_i64(pieces[k].skip(5))
        } else {
            None
        }
    }
}


/// The characters of `s` after the first `n`.
fn char_suffix(s: &str, n: usize) -> (r: String)
    requires
        n <= s@.len(),
    ensures
        r@ == s@.skip(n as int),
{
    let cs = chars_of(s);
    let mut v: Vec<char> = Vec::new();
    let mut i: usize = n;
    while i < cs.len()
        invariant
            n <= i <= cs.len(),
            cs@ == s@,
            v@ == s@.subrange(n as int, i as int),
        decreases cs.len() - i,
    {
        v.push(cs[i]);
        assert(v@ =~= s@.subrange(n as int, i + 1));
        i = i + 1;
    }
    assert(v@ =~= s@.skip(n as int));
    string_of(&v)
}

pub fn edit_id_from_query(search: &str) -> (r: Option<i64>)
    ensures
        r == edit_id_in_query(search@),
{
    proof {
        reveal_strlit("?edit=");
        reveal_strlit("edit=");
    }
    if starts_with(search, "?edit=") {
        let rest = char_suffix(search, 6);
        return parse_i64(rest.as_str());
    }
    let pieces = split_on(search, '&');
    let ghost sp = split_seq(search@, '&');
    let mut k: usize = 0;
    while k < pieces.len()
        invariant
            sp == split_seq(search@, '&'),
            !has_prefix(search@, "?edit="@),
            pieces@.len() == sp.len(),
            forall|j: int| 0 <= j < pieces@.len() ==> (#[trigger] pieces@[j])@ == sp[j],
            k <= pieces.len(),
            forall|m: int| 0 <= m < k ==> !has_prefix(#[trigger] sp[m], "edit="@),
        decreases pieces.len() - k,
    {
        if starts_with(pieces[k].as_str(), "edit=") {
            assert(pieces@[k as int]@ == sp[k as int]);
            proof {
                reveal_strlit("edit=");
            }
            assert("edit="@.len() == 5);
            let rest = char_suffix(pieces[k].as_str(), 5);
            proof {
                assert(has_prefix(sp[k as int], "edit="@));
                assert(exists|j: int| 0 <= j < sp.len() && has_prefix(#[trigger] sp[j], "edit="@));
                let kk = choose|kk: int| 0 <= kk < sp.len() && has_prefix(#[trigger] sp[kk], "edit="@)
                    && forall|m: int| 0 <= m < kk ==> !has_prefix(#[trigger] sp[m], "edit="@);
                if kk < k {
                } else if kk > k {
                    assert(!has_prefix(sp[k as int], "edit="@));
                }
            }
            return parse_i64(rest.as_str());
        }
        k = k + 1;
    }
    None
}

// ---------------------------------------------------------------------------
// Answers to the page's actions
// ---------------------------------------------------------------------------

/// An action on entries whose answer reports `success`.
#[derive(Debug, Clone, Copy, PartialEq, Eq, Structural)]
pub enum EntryAction {
    BulkPost,
    BulkUnpost,
    BulkDelete,
    Delete,
    Post,
}

/// What the server answered to an action: its `success` flag (false where
/// absent or not a boolean), the count it reports (`posted_count`,
/// `unposted_count` or `deleted_count`) and its `error` where given; or the
/// request failed with this error.
#[derive(Debug, Clone)]
pub enum ActionReply {
    Answered { success: bool, count: Option<i64>, error: Option<String> },
    Failed(String),
}

pub open spec fn success_text(action: EntryAction, count: int) -> Seq<char> {
    match action {
        EntryAction::BulkPost => "Успешно осчетоводени "@ + int_text(count) + " записа"@,
        EntryAction::BulkUnpost => "Успешно върнати в чернова "@ + int_text(count) + " записа"@,
        EntryAction::BulkDelete => "Успешно изтрити "@ + int_text(count) + " записа"@,
        EntryAction::Delete => "Записът е изтрит успешно"@,
        EntryAction::Post => "Записът е осчетоводен успешно"@,
    }
}

pub open spec fn failure_prefix(action: EntryAction) -> Seq<char> {
    match action {
        EntryAction::BulkPost => "Грешка при осчетоводяване: "@,
        EntryAction::BulkUnpost => "Грешка при връщане в чернова: "@,
        EntryAction::BulkDelete => "Грешка при изтриване: "@,
        EntryAction::Delete => "Грешка при изтриване: "@,
        EntryAction::Post => "Грешка при осчетоводяване: "@,
    }
}

/// The message after an action on `selected` entries: on success the count
/// the answer reports (else how many were sent); when refused, its error (or
/// an unknown one); when the request failed, the action's own wording.
pub fn action_notice(action: EntryAction, reply: ActionReply, selected: usize) -> (r: Notice)
    ensures
        match reply {
            ActionReply::Answered { success, count, error } => if success {
                r matches Notice::Success(m) && m@ == success_text(action, match count {
                    Some(c) => c as int,
                    None => (selected as i64) as int,
                })
            } else {
                r matches Notice::Error(m) && m@ == "Грешка: "@ + (match error {
                    Some(e) => e@,
                    None => "Неизвестна грешка"@,
                })
            },
            ActionReply::Failed(e) => r matches Notice::Error(m) && m@ == failure_prefix(action) + e@,
        },
{
    match reply {
        ActionReply::Answered { success, count, error } => {
            if success {
                let n: i64 = match count {
                    Some(c) => c,
                    None => selected as i64,
                };
                let text = match action {
                    EntryAction::BulkPost => {
                        let mut t = concat("Успешно осчетоводени ", int_to_string(n).as_str());
                        t.append(" записа");
                        t
                    },
                    EntryAction::BulkUnpost => {
                        let mut t = concat("Успешно върнати в чернова ", int_to_string(n).as_str());
                        t.append(" записа");
                        t
                    },
                    EntryAction::BulkDelete => {
                        let mut t = concat("Успешно изтрити ", int_to_string(n).as_str());
                        t.append(" записа");
                        t
                    },
                    EntryAction::Delete => owned("Записът е изтрит успешно"),
                    EntryAction::Post => owned("Записът е осчетоводен успешно"),
                };
                Notice::Success(text)
            } else {
                let detail = match error {
                    Some(e) => e,
                    None => owned("Неизвестна грешка"),
                };
                Notice::Error(concat("Грешка: ", detail.as_str()))
            }
        },
        ActionReply::Failed(e) => {
            let prefix = match action {
                EntryAction::BulkPost => "Грешка при осчетоводяване: ",
                EntryAction::BulkUnpost => "Грешка при връщане в чернова: ",
                EntryAction::BulkDelete => "Грешка при изтриване: ",
                EntryAction::Delete => "Грешка при изтриване: ",
                EntryAction::Post => "Грешка при осчетоводяване: ",
            };
            Notice::Error(concat(prefix, e.as_str()))
        },
    }
}

/// The lines whose VAT counts toward the entry's VAT total: those on accounts
/// of group 453.
pub fn is_vat_line(account_code: &str) -> (r: bool)
    ensures
        r == has_prefix(account_code@, "453"@),
{
    starts_with(account_code, "453")
}

/// The list's pages as the answer gives them.
#[derive(Debug, Clone, Copy, PartialEq, Eq, Structural)]
pub struct PaginationInfo {
    pub page: i32,
    pub per_page: i32,
    pub total: i32,
    pub total_pages: i32,
}

/// The pages as read from the answer, each value where it is a number (cut to
/// `i32` as `as` does), else page 1 of one, 25 a page, none in all.
pub fn pagination_from(page: Option<i64>, per_page: Option<i64>, total: Option<i64>, total_pages: Option<i64>) -> (r: PaginationInfo)
    ensures
        r.page == (match page { Some(v) => v as i32, None => 1i32 }),
        r.per_page == (match per_page { Some(v) => v as i32, None => 25i32 }),
        r.total == (match total { Some(v) => v as i32, None => 0i32 }),
        r.total_pages == (match total_pages { Some(v) => v as i32, None => 1i32 }),
{
    PaginationInfo {
        page: match page { Some(v) => v as i32, None => 1 },
        per_page: match per_page { Some(v) => v as i32, None => 25 },
        total: match total { Some(v) => v as i32, None => 0 },
        total_pages: match total_pages { Some(v) => v as i32, None => 1 },
    }
}

/// An action on the whole selection.
#[derive(Debug, Clone, Copy, PartialEq, Eq, Structural)]
pub enum BulkAction {
    Post,
    Unpost,
    Delete,
}

/// The ids a bulk action sends: the whole selection for posting and
/// unposting, its drafts for deleting; nothing is sent (`None`) when there
/// are none.
pub fn bulk_ids(action: BulkAction, sel: &Selection, entries: &Vec<EntryRow>) -> (r: Option<Vec<i64>>)
    ensures
        match r {
            Some(v) => {
                &&& v@.len() > 0
                &&& v@.no_duplicates()
                &&& forall|id: i64| v@.contains(id) <==> (sel@.contains(id) && (action == BulkAction::Delete ==> is_draft_id(entries@, id)))
            },
            None => forall|id: i64| !(sel@.contains(id) && (action == BulkAction::Delete ==> is_draft_id(entries@, id))),
        },
{
    let v = match action {
        BulkAction::Delete => deletable_ids(sel, entries),
        _ => sel.ids(),
    };
    if v.len() == 0 {
        assert forall|id: i64| !(sel@.contains(id) && (action == BulkAction::Delete ==> is_draft_id(entries@, id))) by {
            if sel@.contains(id) && (action == BulkAction::Delete ==> is_draft_id(entries@, id)) {
                if action != BulkAction::Delete {
                    assert(v@.to_set().contains(id));
                }
                assert(v@.contains(id));
            }
        }
        None
    } else {
        assert forall|id: i64| v@.contains(id) <==> (sel@.contains(id) && (action == BulkAction::Delete ==> is_draft_id(entries@, id))) by {
            if action != BulkAction::Delete {
                if v@.contains(id) {
                    assert(v@.to_set().contains(id));
                }
                if sel@.contains(id) {
                    assert(v@.to_set().contains(id));
                }
            }
        }
        Some(v)
    }
}

/// Whether an action's answer reports success.
pub open spec fn action_succeeded(reply: ActionReply) -> bool {
    reply matches ActionReply::Answered { success, .. } && success
}

/// What follows an action's answer: on success the list is reloaded, a bulk
/// action clears the selection and posting from the view dialog closes it;
/// otherwise nothing changes. Gives whether to reload and whether to close
/// the view dialog.
pub fn after_action(action: EntryAction, reply: &ActionReply, sel: &mut Selection) -> (r: (bool, bool))
    ensures
        r.0 == action_succeeded(*reply),
        r.1 == (action_succeeded(*reply) && action == EntryAction::Post),
        final(sel)@ == (if action_succeeded(*reply) && (action == EntryAction::BulkPost
            || action == EntryAction::BulkUnpost || action == EntryAction::BulkDelete) {
            Set::<i64>::empty()
        } else {
            old(sel)@
        }),
{
    let ok = match reply {
        ActionReply::Answered { success, .. } => *success,
        ActionReply::Failed(_) => false,
    };
    if ok && (action == EntryAction::BulkPost || action == EntryAction::BulkUnpost || action == EntryAction::BulkDelete) {
        sel.clear();
    }
    (ok, ok && action == EntryAction::Post)
}

} // verus!
