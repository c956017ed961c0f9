//! The reports page: which report a choice means, the filters each report is
//! asked for with, the account a ledger card is for, the counterpart picker,
//! the sections of the trial balance by counterpart, and the headings.

use vstd::prelude::*;
use crate::text::{owned, concat, str_eq, text_or, to_lowercase, lowercase, contains, has_substring,
    folded_contains, folded_match};
use crate::numtext::{int_text, int_to_string, nat_text, count_to_string};
use crate::groups::{indices_where, selects};

verus! {

#[derive(Debug, Clone, Copy, PartialEq, Eq, Structural)]
pub enum ReportKind {
    TrialBalance,
    TrialBalanceByCounterpart,
    AccountLedger,
    GeneralLedger,
    Chronological,
}

/// The report a choice of the list means; anything unknown is the
/// chronological report.
pub open spec fn kind_of(value: Seq<char>) -> ReportKind {
    if value == "trial_balance"@ { ReportKind::TrialBalance }
    else if value == "general_ledger"@ { ReportKind::GeneralLedger }
    else if value == "trial_balance_counterpart"@ { ReportKind::TrialBalanceByCounterpart }
    else if value == "account_ledger"@ { ReportKind::AccountLedger }
    else { ReportKind::Chronological }
}

/// Law: the report list's five choices (trial_balance, general_ledger,
/// trial_balance_counterpart, account_ledger, chronological) each mean a
/// report of their own.
pub proof fn lemma_report_kinds(v1: Seq<char>, v2: Seq<char>)
    requires
        v1 != v2,
        seq!["trial_balance"@, "general_ledger"@, "trial_balance_counterpart"@, "account_ledger"@, "chronological"@].contains(v1),
        seq!["trial_balance"@, "general_ledger"@, "trial_balance_counterpart"@, "account_ledger"@, "chronological"@].contains(v2),
    ensures
        kind_of(v1) != kind_of(v2),
{
    reveal_strlit("trial_balance");
    reveal_strlit("general_ledger");
    reveal_strlit("trial_balance_counterpart");
    reveal_strlit("account_ledger");
    reveal_strlit("chronological");
    let k = seq!["trial_balance"@, "general_ledger"@, "trial_balance_counterpart"@, "account_ledger"@, "chronological"@];
    let a = choose|q: int| 0 <= q < 5 && k[q] == v1;
    let b = choose|q: int| 0 <= q < 5 && k[q] == v2;
    assert(k[a] == v1 && k[b] == v2);
    assert("chronological"@[0] != "trial_balance"@[0]);
    assert("general_ledger"@[0] != "account_ledger"@[0]);
}

pub fn report_kind(value: &str) -> (r: ReportKind)
    ensures
        r == kind_of(value@),
{
    if str_eq(value, "trial_balance") { ReportKind::TrialBalance }
    else if str_eq(value, "general_ledger") { ReportKind::GeneralLedger }
    else if str_eq(value, "trial_balance_counterpart") { ReportKind::TrialBalanceByCounterpart }
    else if str_eq(value, "account_ledger") { ReportKind::AccountLedger }
    else { ReportKind::Chronological }
}

/// The loaded rows that a change of report clears: those of the trial
/// balance, the chronological report, the general ledger and the trial
/// balance by counterpart, with the latter's totals. (The ledger card's rows
/// and the other totals are kept.)
#[derive(Debug, Clone)]
pub struct ClearedOnSwitch<R, C, G, T> {
    pub trial_balance: Vec<R>,
    pub chronological: Vec<C>,
    pub general_ledger: Vec<G>,
    pub by_counterpart: Vec<R>,
    pub by_counterpart_totals: Option<T>,
}

/// Choosing a report in the list: the report it means, with those rows
/// cleared.
pub fn switch_report<R, C, G, T>(rows: &mut ClearedOnSwitch<R, C, G, T>, value: &str) -> (k: ReportKind)
    ensures
        k == kind_of(value@),
        final(rows).trial_balance@.len() == 0,
        final(rows).chronological@.len() == 0,
        final(rows).general_ledger@.len() == 0,
        final(rows).by_counterpart@.len() == 0,
        final(rows).by_counterpart_totals.is_none(),
{
    rows.trial_balance = Vec::new();
    rows.chronological = Vec::new();
    rows.general_ledger = Vec::new();
    rows.by_counterpart = Vec::new();
    rows.by_counterpart_totals = None;
    report_kind(value)
}

/// The page's filters, as typed (the counterpart as the text of its id, or
/// empty).
#[derive(Debug, Clone, Default)]
pub struct ReportFilters {
    pub date_from: String,
    pub date_to: String,
    pub account_filter: String,
    pub group_by_level: String,
    pub counterpart_id: String,
}

/// The filters as the page opens: no dates, no account, every account level.
pub fn initial_filters() -> (f: ReportFilters)
    ensures
        f.date_from@.len() == 0 && f.date_to@.len() == 0 && f.account_filter@.len() == 0,
        f.group_by_level@ == "0"@,
        f.counterpart_id@.len() == 0,
{
    ReportFilters {
        date_from: String::new(),
        date_to: String::new(),
        account_filter: String::new(),
        group_by_level: owned("0"),
        counterpart_id: String::new(),
    }
}

/// `name=value` pairs joined into a query, in order.
pub open spec fn query_of(pairs: Seq<(Seq<char>, Seq<char>)>) -> Seq<char>
    decreases pairs.len(),
{
    if pairs.len() == 0 {
        Seq::empty()
    } else if pairs.len() == 1 {
        pairs[0].0 + "="@ + pairs[0].1
    } else {
        query_of(pairs.drop_last()) + "&"@ + pairs.last().0 + "="@ + pairs.last().1
    }
}

/// The request of a report: `{company api}/reports/{name}?` and its query,
/// the values as typed.
pub open spec fn report_request(base: Seq<char>, kind: ReportKind, f: ReportFilters, account_id: i64) -> Seq<char> {
    match kind {
        ReportKind::TrialBalance => base + "/reports/trial_balance?"@ + query_of(seq![
            ("date_from"@, f.date_from@), ("date_to"@, f.date_to@),
            ("account_filter"@, f.account_filter@), ("group_by_level"@, f.group_by_level@)]),
        ReportKind::Chronological => base + "/reports/chronological?"@ + query_of(seq![
            ("date_from"@, f.date_from@), ("date_to"@, f.date_to@),
            ("account_code"@, f.account_filter@), ("counterpart_id"@, f.counterpart_id@)]),
        ReportKind::GeneralLedger => base + "/reports/general_ledger?"@ + query_of(seq![
            ("date_from"@, f.date_from@), ("date_to"@, f.date_to@), ("account_filter"@, f.account_filter@)]),
        ReportKind::TrialBalanceByCounterpart => base + "/reports/trial_balance_by_counterpart?"@ + query_of(seq![
            ("date_from"@, f.date_from@), ("date_to"@, f.date_to@),
            ("counterpart_id"@, f.counterpart_id@), ("account_filter"@, f.account_filter@)]),
        ReportKind::AccountLedger => base + "/reports/account_ledger?"@ + query_of(seq![
            ("date_from"@, f.date_from@), ("date_to"@, f.date_to@),
            ("account_id"@, int_text(account_id as int)), ("counterpart_id"@, f.counterpart_id@)]),
    }
}

proof fn lemma_query_push(pairs: Seq<(Seq<char>, Seq<char>)>, x: (Seq<char>, Seq<char>))
    ensures
        query_of(pairs.push(x)) == if pairs.len() == 0 {
            x.0 + "="@ + x.1
        } else {
            query_of(pairs) + "&"@ + x.0 + "="@ + x.1
        },
{
    assert(pairs.push(x).drop_last() =~= pairs);
    if pairs.len() == 0 {
        assert(pairs.push(x)[0] == x);
    }
}

/// Appends `name=value` to a query that already holds `pairs`.
fn add_param(r: &mut String, Ghost(head): Ghost<Seq<char>>, Ghost(pairs): Ghost<Seq<(Seq<char>, Seq<char>)>>, first: bool, name: &str, value: &str)
    requires
        old(r)@ == head + query_of(pairs),
        first == (pairs.len() == 0),
    ensures
        final(r)@ == head + query_of(pairs.push((name@, value@))),
{
    proof {
        lemma_query_push(pairs, (name@, value@));
        reveal_strlit("&");
        reveal_strlit("=");
    }
    if !first {
        r.append("&");
    }
    r.append(name);
    r.append("=");
    r.append(value);
    proof {
        if pairs.len() == 0 {
            assert(final(r)@ =~= head + (name@ + "="@ + value@));
        } else {
            assert(final(r)@ =~= head + (query_of(pairs) + "&"@ + name@ + "="@ + value@));
        }
    }
}

/// The URL a report is loaded from (the account's id counts only for the
/// ledger card).
pub fn report_url(company_api: &str, kind: ReportKind, f: &ReportFilters, account_id: i64) -> (r: String)
    ensures
        r@ == report_request(company_api@, kind, *f, account_id),
{
    let path = match kind {
        ReportKind::TrialBalance => "/reports/trial_balance?",
        ReportKind::Chronological => "/reports/chronological?",
        ReportKind::GeneralLedger => "/reports/general_ledger?",
        ReportKind::TrialBalanceByCounterpart => "/reports/trial_balance_by_counterpart?",
        ReportKind::AccountLedger => "/reports/account_ledger?",
    };
    let mut r = concat(company_api, path);
    let ghost head = r@;
    let ghost p0 = Seq::<(Seq<char>, Seq<char>)>::empty();
    assert(r@ =~= head + query_of(p0));
    add_param(&mut r, Ghost(head), Ghost(p0), true, "date_from", f.date_from.as_str());
    let ghost p1 = p0.push(("date_from"@, f.date_from@));
    add_param(&mut r, Ghost(head), Ghost(p1), false, "date_to", f.date_to.as_str());
    let ghost p2 = p1.push(("date_to"@, f.date_to@));
    match kind {
        ReportKind::TrialBalance => {
            add_param(&mut r, Ghost(head), Ghost(p2), false, "account_filter", f.account_filter.as_str());
            let ghost p3 = p2.push(("account_filter"@, f.account_filter@));
            add_param(&mut r, Ghost(head), Ghost(p3), false, "group_by_level", f.group_by_level.as_str());
            assert(p3.push(("group_by_level"@, f.group_by_level@)) =~= seq![
                ("date_from"@, f.date_from@), ("date_to"@, f.date_to@),
                ("account_filter"@, f.account_filter@), ("group_by_level"@, f.group_by_level@)]);
        },
        ReportKind::Chronological => {
            add_param(&mut r, Ghost(head), Ghost(p2), false, "account_code", f.account_filter.as_str());
            let ghost p3 = p2.push(("account_code"@, f.account_filter@));
            add_param(&mut r, Ghost(head), Ghost(p3), false, "counterpart_id", f.counterpart_id.as_str());
            assert(p3.push(("counterpart_id"@, f.counterpart_id@)) =~= seq![
                ("date_from"@, f.date_from@), ("date_to"@, f.date_to@),
                ("account_code"@, f.account_filter@), ("counterpart_id"@, f.counterpart_id@)]);
        },
        ReportKind::GeneralLedger => {
            add_param(&mut r, Ghost(head), Ghost(p2), false, "account_filter", f.account_filter.as_str());
            assert(p2.push(("account_filter"@, f.account_filter@)) =~= seq![
                ("date_from"@, f.date_from@), ("date_to"@, f.date_to@), ("account_filter"@, f.account_filter@)]);
        },
        ReportKind::TrialBalanceByCounterpart => {
            add_param(&mut r, Ghost(head), Ghost(p2), false, "counterpart_id", f.counterpart_id.as_str());
            let ghost p3 = p2.push(("counterpart_id"@, f.counterpart_id@));
            add_param(&mut r, Ghost(head), Ghost(p3), false, "account_filter", f.account_filter.as_str());
            assert(p3.push(("account_filter"@, f.account_filter@)) =~= seq![
                ("date_from"@, f.date_from@), ("date_to"@, f.date_to@),
                ("counterpart_id"@, f.counterpart_id@), ("account_filter"@, f.account_filter@)]);
        },
        ReportKind::AccountLedger => {
            let id = int_to_string(account_id);
            add_param(&mut r, Ghost(head), Ghost(p2), false, "account_id", id.as_str());
            let ghost p3 = p2.push(("account_id"@, int_text(account_id as int)));
            add_param(&mut r, Ghost(head), Ghost(p3), false, "counterpart_id", f.counterpart_id.as_str());
            assert(p3.push(("counterpart_id"@, f.counterpart_id@)) =~= seq![
                ("date_from"@, f.date_from@), ("date_to"@, f.date_to@),
                ("account_id"@, int_text(account_id as int)), ("counterpart_id"@, f.counterpart_id@)]);
        },
    }
    r
}

// ---------------------------------------------------------------------------
// The ledger card's account
// ---------------------------------------------------------------------------

/// An account as the account list gives it: its code and id where they are
/// text and a number.
#[derive(Debug, Clone, Default)]
pub struct AccountRef {
    pub id: Option<i64>,
    pub code: Option<String>,
}

pub open spec fn code_is(a: AccountRef, code: Seq<char>) -> bool {
    a.code matches Some(c) && c@ == code
}

/// The id of the first account whose code is `code` (none where that account
/// has no id), or none where no account has that code.
pub open spec fn first_code_id(accounts: Seq<AccountRef>, code: Seq<char>) -> Option<i64>
    decreases accounts.len(),
{
    if accounts.len() == 0 {
        None
    } else if code_is(accounts[0], code) {
        accounts[0].id
    } else {
        first_code_id(accounts.drop_first(), code)
    }
}

proof fn lemma_first_code_id_skip(accounts: Seq<AccountRef>, code: Seq<char>, i: int)
    requires
        0 <= i <= accounts.len(),
        forall|k: int| 0 <= k < i ==> !code_is(#[trigger] accounts[k], code),
    ensures
        first_code_id(accounts, code) == first_code_id(accounts.skip(i), code),
    decreases i,
{
    if i > 0 {
        let rest = accounts.drop_first();
        assert forall|k: int| 0 <= k < i - 1 implies !code_is(#[trigger] rest[k], code) by {
            assert(rest[k] == accounts[k + 1]);
        }
        lemma_first_code_id_skip(rest, code, i - 1);
        assert(rest.skip(i - 1) =~= accounts.skip(i));
        assert(!code_is(accounts[0], code));
    } else {
        assert(accounts.skip(0) =~= accounts);
    }
}

/// Law: the ledger card is for the first account whose code is the one
/// asked for: where account `k` has that code and none before it does, the
/// id found is account `k`'s (none where it has no id); where no account has
/// that code, none is found.
pub proof fn lemma_first_code_id(accounts: Seq<AccountRef>, code: Seq<char>, k: int)
    requires
        0 <= k <= accounts.len(),
        forall|j: int| 0 <= j < k ==> !(#[trigger] accounts[j].code matches Some(c) && c@ == code),
    ensures
        k < accounts.len() && (accounts[k].code matches Some(c) && c@ == code) ==> first_code_id(accounts, code) == accounts[k].id,
        k == accounts.len() ==> first_code_id(accounts, code) is None,
{
    assert forall|j: int| 0 <= j < k implies !code_is(#[trigger] accounts[j], code) by {
        assert(!(accounts[j].code matches Some(c) && c@ == code));
    }
    lemma_first_code_id_skip(accounts, code, k);
    if k == accounts.len() {
        assert(accounts.skip(k) =~= Seq::<AccountRef>::empty());
    } else {
        assert(accounts.skip(k)[0] == accounts[k]);
    }
}

pub fn find_account_id(accounts: &Vec<AccountRef>, code: &str) -> (r: Option<i64>)
    ensures
        r == first_code_id(accounts@, code@),
{
    let mut i: usize = 0;
    while i < accounts.len()
        invariant
            i <= accounts.len(),
            forall|k: int| 0 <= k < i ==> !code_is(#[trigger] accounts@[k], code@),
        decreases accounts.len() - i,
    {
        let matches = match &accounts[i].code {
            Some(c) => str_eq(c.as_str(), code),
            None => false,
        };
        if matches {
            proof {
                lemma_first_code_id_skip(accounts@, code@, i as int);
                assert(accounts@.skip(i as int)[0] == accounts@[i as int]);
            }
            return accounts[i].id;
        }
        i = i + 1;
    }
    proof {
        lemma_first_code_id_skip(accounts@, code@, accounts.len() as int);
    }
    None
}

/// Why a ledger card cannot be made before anything is asked: no account.
pub fn ledger_account_missing(account_filter: &str) -> (r: Option<&'static str>)
    ensures
        match r {
            Some(m) => account_filter@.len() == 0 && m@ == "Моля, въведете сметка"@,
            None => account_filter@.len() > 0,
        },
{
    if account_filter.is_empty() {
        Some("Моля, въведете сметка")
    } else {
        None
    }
}

/// The error of an account that is not in the list.
pub fn account_not_found(code: &str) -> (r: String)
    ensures
        r@ == "Сметка "@ + code@ + " не е намерена"@,
{
    let mut r = concat("Сметка ", code);
    r.append(" не е намерена");
    r
}

// ---------------------------------------------------------------------------
// The counterpart picker
// ---------------------------------------------------------------------------

/// A counterpart that can be picked.
#[derive(Debug, Clone, Default)]
pub struct CounterpartOption {
    pub id: i64,
    pub name: String,
    pub eik: Option<String>,
}

/// Whether a counterpart is offered for a (lowercased) search: every one for
/// an empty search, else those whose lowercased name holds it or whose EIK,
/// as it is, does.
pub open spec fn offered(c: CounterpartOption, search: Seq<char>) -> bool {
    search.len() == 0 || folded_match(c.name@, search)
        || has_substring(match c.eik { Some(e) => e@, None => Seq::empty() }, search)
}

/// The counterparts offered for what was typed, by index.
pub fn offered_counterparts(options: &Vec<CounterpartOption>, typed: &str) -> (r: Vec<usize>)
    ensures
        selects(r@, options@.map_values(|c: CounterpartOption| offered(c, lowercase(typed@)))),
{
    proof {
        reveal_strlit("");
    }
    let q = to_lowercase(typed);
    let ghost want = options@.map_values(|c: CounterpartOption| offered(c, lowercase(typed@)));
    let mut flags: Vec<bool> = Vec::new();
    let mut i: usize = 0;
    while i < options.len()
        invariant
            q@ == lowercase(typed@),
            ""@ == Seq::<char>::empty(),
            want == options@.map_values(|c: CounterpartOption| offered(c, lowercase(typed@))),
            i <= options.len(),
            flags.len() == i,
            forall|j: int| 0 <= j < i ==> #[trigger] flags@[j] == want[j],
        decreases options.len() - i,
    {
        let c = &options[i];
        let eik = text_or(&c.eik, "");
        let ok = q.as_str().is_empty() || folded_contains(c.name.as_str(), q.as_str())
            || contains(eik.as_str(), q.as_str());
        flags.push(ok);
        i = i + 1;
    }
    assert(flags@ =~= want);
    indices_where(&flags)
}

/// Law: the report's counterpart picker searches the lowercased name and the
/// EIK as it is. An empty search offers every counterpart; otherwise one is
/// offered exactly when its lowercased name or its EIK holds the
/// (lowercased) search. `r` is what `offered_counterparts` gives.
pub proof fn lemma_offered_counterparts(options: Seq<CounterpartOption>, query: Seq<char>, r: Seq<usize>)
    requires
        selects(r, options.map_values(|c: CounterpartOption| offered(c, query))),
    ensures
        forall|i: int| 0 <= i < options.len() ==> (r.contains(i as usize) <==> (
            has_substring(lowercase((#[trigger] options[i]).name@), query)
            || (options[i].eik matches Some(e) && has_substring(e@, query))
            || query.len() == 0)),
{
    assert forall|i: int| 0 <= i < options.len() implies (r.contains(i as usize) <==> (
            has_substring(lowercase((#[trigger] options[i]).name@), query)
            || (options[i].eik matches Some(e) && has_substring(e@, query))
            || query.len() == 0)) by {
        assert(options.map_values(|c: CounterpartOption| offered(c, query))[i] == offered(options[i], query));
        if options[i].eik is None {
            reveal_strlit("");
            if query.len() > 0 {
                assert(!has_substring(Seq::<char>::empty(), query));
            }
        }
    }
}

/// How a counterpart reads in the picker: `{name} ({eik})`, or its name alone
/// where its EIK is missing or empty.
pub open spec fn label_of(c: CounterpartOption) -> Seq<char> {
    match c.eik {
        Some(e) => if e@.len() == 0 { c.name@ } else { c.name@ + " ("@ + e@ + ")"@ },
        None => c.name@,
    }
}

pub fn counterpart_label(c: &CounterpartOption) -> (r: String)
    ensures
        r@ == label_of(*c),
{
    match &c.eik {
        Some(e) => {
            if e.as_str().is_empty() {
                owned(c.name.as_str())
            } else {
                let mut r = concat(c.name.as_str(), " (");
                r.append(e.as_str());
                r.append(")");
                r
            }
        },
        None => owned(c.name.as_str()),
    }
}

/// The picker's field shows what is typed while the list is open, else the
/// chosen counterpart.
pub fn picker_text(open: bool, typed: &str, chosen_label: &str) -> (r: String)
    ensures
        r@ == (if open { typed@ } else { chosen_label@ }),
{
    if open { owned(typed) } else { owned(chosen_label) }
}

/// The counterpart picker: what is typed in it, the label of the chosen
/// counterpart, and whether its list is open. The chosen counterpart's id is
/// the filters' `counterpart_id`.
#[derive(Debug, Clone)]
pub struct CounterpartPicker {
    pub search: String,
    pub chosen_label: String,
    pub open: bool,
}

impl CounterpartPicker {
    /// The picker as the page opens: nothing typed, nothing chosen, closed.
    pub fn new() -> (p: CounterpartPicker)
        ensures
            p.search@.len() == 0 && p.chosen_label@.len() == 0 && !p.open,
    {
        CounterpartPicker { search: String::new(), chosen_label: String::new(), open: false }
    }

    /// Entering the field opens the list and empties the search.
    pub fn focus(&mut self)
        ensures
            final(self).open,
            final(self).search@.len() == 0,
            final(self).chosen_label@ == old(self).chosen_label@,
    {
        self.open = true;
        self.search = String::new();
    }

    /// Typing sets the search and opens the list.
    pub fn type_search(&mut self, typed: &str)
        ensures
            final(self).open,
            final(self).search@ == typed@,
            final(self).chosen_label@ == old(self).chosen_label@,
    {
        self.search = owned(typed);
        self.open = true;
    }

    /// Picking a counterpart from the list chooses it: the filters take the
    /// text of its id, the field its label; the list closes and the search is
    /// emptied. The other filters stay as they were.
    pub fn pick(&mut self, filters: &mut ReportFilters, c: &CounterpartOption)
        ensures
            final(filters).counterpart_id@ == int_text(c.id as int),
            final(filters).date_from == old(filters).date_from,
            final(filters).date_to == old(filters).date_to,
            final(filters).account_filter == old(filters).account_filter,
            final(filters).group_by_level == old(filters).group_by_level,
            final(self).chosen_label@ == label_of(*c),
            !final(self).open,
            final(self).search@.len() == 0,
    {
        filters.counterpart_id = int_to_string(c.id);
        self.chosen_label = counterpart_label(c);
        self.open = false;
        self.search = String::new();
    }

    /// The clear button drops the choice: no counterpart id, no label; the
    /// list and the search stay as they were, and so do the other filters.
    pub fn clear_choice(&mut self, filters: &mut ReportFilters)
        ensures
            final(filters).counterpart_id@.len() == 0,
            final(filters).date_from == old(filters).date_from,
            final(filters).date_to == old(filters).date_to,
            final(filters).account_filter == old(filters).account_filter,
            final(filters).group_by_level == old(filters).group_by_level,
            final(self).chosen_label@.len() == 0,
            final(self).open == old(self).open,
            final(self).search@ == old(self).search@,
    {
        filters.counterpart_id = String::new();
        self.chosen_label = String::new();
    }
}

/// The reports that ask for a counterpart.
pub open spec fn asks_counterpart(kind: ReportKind) -> bool {
    kind == ReportKind::TrialBalanceByCounterpart || kind == ReportKind::Chronological || kind == ReportKind::AccountLedger
}

pub fn shows_counterpart_picker(kind: ReportKind) -> (r: bool)
    ensures
        r == asks_counterpart(kind),
{
    kind == ReportKind::TrialBalanceByCounterpart || kind == ReportKind::Chronological || kind == ReportKind::AccountLedger
}

/// Only the trial balance is asked for an account level.
pub fn shows_level_choice(kind: ReportKind) -> (r: bool)
    ensures
        r == (kind == ReportKind::TrialBalance),
{
    kind == ReportKind::TrialBalance
}

pub fn counterpart_field_label(kind: ReportKind) -> (r: &'static str)
    ensures
        r@ == (if kind == ReportKind::TrialBalanceByCounterpart { "Контрагент (опц.)"@ } else { "Контрагент"@ }),
{
    if kind == ReportKind::TrialBalanceByCounterpart { "Контрагент (опц.)" } else { "Контрагент" }
}

pub fn account_field_label(kind: ReportKind) -> (r: &'static str)
    ensures
        r@ == (if kind == ReportKind::Chronological { "Сметка (опц.)"@ }
            else if kind == ReportKind::AccountLedger { "Сметка"@ } else { "Филтър сметки"@ }),
{
    if kind == ReportKind::Chronological { "Сметка (опц.)" }
    else if kind == ReportKind::AccountLedger { "Сметка" }
    else { "Филтър сметки" }
}

pub fn account_placeholder(kind: ReportKind) -> (r: &'static str)
    ensures
        r@ == (if kind == ReportKind::Chronological || kind == ReportKind::AccountLedger { "напр. 401"@ }
            else { "напр. 6* или 601*"@ }),
{
    if kind == ReportKind::Chronological || kind == ReportKind::AccountLedger { "напр. 401" }
    else { "напр. 6* или 601*" }
}

// ---------------------------------------------------------------------------
// Headings
// ---------------------------------------------------------------------------

/// The counterpart the trial balance by counterpart is for: the answer's
/// counterpart's name (empty where it has none), or all of them where the
/// answer names no counterpart.
pub fn report_counterpart_name(counterpart: Option<Option<String>>) -> (r: String)
    ensures
        r@ == (match counterpart {
            Some(Some(n)) => n@,
            Some(None) => Seq::empty(),
            None => "Всички контрагенти"@,
        }),
{
    proof {
        reveal_strlit("");
    }
    match counterpart {
        Some(name) => text_or(&name, ""),
        None => owned("Всички контрагенти"),
    }
}

/// The period line's ending: the account filter where one is set, after
/// `label`.
pub fn filter_note(label: &str, account_filter: &str) -> (r: String)
    ensures
        r@ == (if account_filter@.len() > 0 { " | "@ + label@ + ": "@ + account_filter@ } else { Seq::empty() }),
{
    if account_filter.is_empty() {
        String::new()
    } else {
        let mut r = concat(" | ", label);
        r.append(": ");
        r.append(account_filter);
        r
    }
}

/// An account's heading: `Сметка {code} - {name}`.
pub fn account_heading(code: &str, name: &str) -> (r: String)
    ensures
        r@ == "Сметка "@ + code@ + " - "@ + name@,
{
    let mut r = concat("Сметка ", code);
    r.append(" - ");
    r.append(name);
    r
}

/// The general ledger's turnover line of an account.
pub fn turnover_caption(operations: usize) -> (r: String)
    ensures
        r@ == "Обороти ("@ + nat_text(operations as nat) + " операции):"@,
{
    let mut r = concat("Обороти (", count_to_string(operations).as_str());
    r.append(" операции):");
    r
}

/// The general ledger's closing line over all accounts.
pub fn closing_caption(accounts: usize) -> (r: String)
    ensures
        r@ == "Крайно салдо ("@ + nat_text(accounts as nat) + " сметки)"@,
{
    let mut r = concat("Крайно салдо (", count_to_string(accounts).as_str());
    r.append(" сметки)");
    r
}

/// The subtotal line of an account in the trial balance by counterpart.
pub fn subtotal_caption(code: &str) -> (r: String)
    ensures
        r@ == "Общо с/ка "@ + code@,
{
    concat("Общо с/ка ", code)
}

// ---------------------------------------------------------------------------
// Sections of the trial balance by counterpart
// ---------------------------------------------------------------------------

/// A run of rows of one account: rows `start..end`, whether it opens with the
/// account's heading and whether it closes with its subtotal.
#[derive(Debug, Clone, Copy)]
pub struct Section {
    pub start: usize,
    pub end: usize,
    pub header: bool,
    pub subtotal: bool,
}

/// `s` cuts the rows, whose account codes are `codes`, into runs of one code:
/// the runs follow one another from the first row to the last, each holds
/// one code, and two runs in a row hold different codes. A run is headed
/// unless it is the first and its code is empty; it gets a subtotal unless
/// its code is empty (the table is written row by row, and the account that
/// is open when a row of another code comes, or when the rows end, is closed
/// with its subtotal; at first no account is open).
pub open spec fn sections_of(codes: Seq<Seq<char>>, s: Seq<Section>) -> bool {
    &&& (codes.len() == 0) == (s.len() == 0)
    &&& s.len() > 0 ==> s[0].start == 0 && s[s.len() - 1].end == codes.len()
    &&& forall|k: int| 1 <= k < s.len() ==> (#[trigger] s[k]).start == s[k - 1].end
    &&& forall|k: int| 0 <= k < s.len() ==> (#[trigger] s[k]).start < s[k].end <= codes.len()
    &&& forall|k: int, i: int| 0 <= k < s.len() && s[k].start <= i < s[k].end ==> #[trigger] codes[i] == codes[(#[trigger] s[k]).start as int]
    &&& forall|k: int| 1 <= k < s.len() ==> codes[(#[trigger] s[k]).start as int] != codes[s[k - 1].start as int]
    &&& forall|k: int| 0 <= k < s.len() ==> (#[trigger] s[k]).header == (k > 0 || codes[s[k].start as int].len() > 0)
    &&& forall|k: int| 0 <= k < s.len() ==> (#[trigger] s[k]).subtotal == (codes[s[k].start as int].len() > 0)
}

pub fn counterpart_sections(codes: &Vec<String>) -> (r: Vec<Section>)
    ensures
        sections_of(codes@.map_values(|c: String| c@), r@),
{
    let ghost cv = codes@.map_values(|c: String| c@);
    let mut r: Vec<Section> = Vec::new();
    let n = codes.len();
    if n == 0 {
        assert(cv.len() == 0);
        return r;
    }
    let mut start: usize = 0;
    let mut i: usize = 1;
    while i < n
        invariant
            n == codes.len(),
            cv == codes@.map_values(|c: String| c@),
            start < i <= n,
            forall|j: int| start <= j < i ==> #[trigger] cv[j] == cv[start as int],
            r.len() == 0 ==> start == 0,
            r.len() > 0 ==> r@[r.len() - 1].end == start && cv[start as int] != cv[r@[r.len() - 1].start as int],
            r.len() > 0 ==> r@[0].start == 0,
            forall|k: int| 1 <= k < r.len() ==> (#[trigger] r@[k]).start == r@[k - 1].end,
            forall|k: int| 0 <= k < r.len() ==> (#[trigger] r@[k]).start < r@[k].end <= start,
            forall|k: int, j: int| 0 <= k < r.len() && r@[k].start <= j < r@[k].end ==> #[trigger] cv[j] == cv[(#[trigger] r@[k]).start as int],
            forall|k: int| 1 <= k < r.len() ==> cv[(#[trigger] r@[k]).start as int] != cv[r@[k - 1].start as int],
            forall|k: int| 0 <= k < r.len() ==> (#[trigger] r@[k]).header == (k > 0 || cv[r@[k].start as int].len() > 0),
            forall|k: int| 0 <= k < r.len() ==> (#[trigger] r@[k]).subtotal == (cv[r@[k].start as int].len() > 0),
        decreases n - i,
    {
        if !str_eq(codes[i].as_str(), codes[start].as_str()) {
            let filled = !codes[start].as_str().is_empty();
            let header = r.len() > 0 || filled;
            r.push(Section { start, end: i, header, subtotal: filled });
            start = i;
        }
        i = i + 1;
    }
    let filled = !codes[start].as_str().is_empty();
    let header = r.len() > 0 || filled;
    r.push(Section { start, end: n, header, subtotal: filled });
    r
}

} // verus!
