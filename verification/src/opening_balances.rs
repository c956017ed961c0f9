//! The opening balances page: balance types as shown, today's date, the
//! list's filters, the accounts offered per balance type, and the form.

use vstd::prelude::*;
use crate::text::{str_eq, starts_with, has_prefix, owned, concat, text_or, non_empty};
use crate::numtext::{padded_to_string, padded_text, int_to_string, int_text, parse_i64, parsed_i64,
    lemma_i64_roundtrip, lemma_nat_text};
use crate::groups::indices_where;

use crate::answers::{Outcome, Notice, failure_text, failure_message};

verus! {

#[derive(Debug, Clone, Default)]
pub struct AccountInfo {
    pub id: i64,
    pub code: String,
    pub name: String,
}

#[derive(Debug, Clone, Default)]
pub struct CounterpartInfo {
    pub id: i64,
    pub name: String,
    pub vat: Option<String>,
}

#[derive(Debug, Clone, Default)]
pub struct ProductInfo {
    pub id: i64,
    pub code: String,
    pub name: String,
    pub unit: Option<String>,
}

#[derive(Debug, Clone, Default)]
pub struct WarehouseInfo {
    pub id: i64,
    pub name: String,
}

/// An account offered in the form.
#[derive(Debug, Clone, Default)]
pub struct Account {
    pub id: i64,
    pub code: String,
    pub name: String,
    pub account_type: String,
}

/// A counterpart offered in the form.
#[derive(Debug, Clone, Default)]
pub struct Counterpart {
    pub id: i64,
    pub name: String,
    pub vat_number: Option<String>,
}

/// A product offered in the form.
#[derive(Debug, Clone, Default)]
pub struct Product {
    pub id: i64,
    pub code: String,
    pub name: String,
    pub measure_unit: Option<String>,
}

/// The fields of an opening balance that the page's logic reads (the debit,
/// credit and quantity, floats, stay with the caller).
#[derive(Debug, Clone, Default)]
pub struct BalanceRow {
    pub id: i64,
    pub date: String,
    pub description: Option<String>,
    pub balance_type: String,
    pub account: AccountInfo,
    pub counterpart: Option<CounterpartInfo>,
    pub product: Option<ProductInfo>,
    pub warehouse: Option<WarehouseInfo>,
}

/// The label of a balance type.
pub open spec fn balance_type_label(t: Seq<char>) -> Seq<char> {
    if t == "account"@ { "Сметка"@ }
    else if t == "counterpart"@ { "Контрагент"@ }
    else if t == "product"@ { "Продукт"@ }
    else { "Друг"@ }
}

/// The colour of a balance type.
pub open spec fn balance_type_color(t: Seq<char>) -> Seq<char> {
    if t == "account"@ { "#3498db"@ }
    else if t == "counterpart"@ { "#9b59b6"@ }
    else if t == "product"@ { "#27ae60"@ }
    else { "#7f8c8d"@ }
}

/// Law: each balance type has a label of its own: no other type, known or
/// not, is shown with the label of account, counterpart or product.
pub proof fn lemma_balance_type_labels(t1: Seq<char>, t2: Seq<char>)
    requires
        t1 != t2,
        seq!["account"@, "counterpart"@, "product"@].contains(t1),
    ensures
        balance_type_label(t1) != balance_type_label(t2),
{
    reveal_strlit("account");
    reveal_strlit("counterpart");
    reveal_strlit("product");
    reveal_strlit("Сметка");
    reveal_strlit("Контрагент");
    reveal_strlit("Продукт");
    reveal_strlit("Друг");
    let w = choose|q: int| 0 <= q < 3 && seq!["account"@, "counterpart"@, "product"@][q] == t1;
    assert(seq!["account"@, "counterpart"@, "product"@][w] == t1);
    assert(balance_type_label(t1).len() != balance_type_label(t2).len());
}

pub fn get_balance_type_label(balance_type: &str) -> (r: &'static str)
    ensures
        r@ == balance_type_label(balance_type@),
{
    if str_eq(balance_type, "account") { "Сметка" }
    else if str_eq(balance_type, "counterpart") { "Контрагент" }
    else if str_eq(balance_type, "product") { "Продукт" }
    else { "Друг" }
}

pub fn get_balance_type_color(balance_type: &str) -> (r: &'static str)
    ensures
        r@ == balance_type_color(balance_type@),
{
    if str_eq(balance_type, "account") { "#3498db" }
    else if str_eq(balance_type, "counterpart") { "#9b59b6" }
    else if str_eq(balance_type, "product") { "#27ae60" }
    else { "#7f8c8d" }
}

/// A calendar date as `YYYY-MM-DD` (`{:04}-{:02}-{:02}`) from the year, the
/// month counted from 0 (as JavaScript's `Date` gives it) and the day.
pub fn today_date_text(year: u32, month_index: u32, day: u32) -> (r: String)
    requires
        month_index < u32::MAX,
    ensures
        r@ == padded_text(year as int, 4) + seq!['-'] + padded_text(month_index + 1, 2) + seq!['-'] + padded_text(day as int, 2),
{
    let month = month_index + 1;
    let mut r = padded_to_string(year as i64, 4);
    crate::text::push_char(&mut r, '-');
    let m = padded_to_string(month as i64, 2);
    r.append(m.as_str());
    crate::text::push_char(&mut r, '-');
    let d = padded_to_string(day as i64, 2);
    r.append(d.as_str());
    r
}

/// Whether a balance passes the filters: the type filter (when set) asks for
/// that type; the account filter (when set) asks for the account whose id it
/// reads as (0 when it does not read as a number).
pub open spec fn balance_matches(b: BalanceRow, type_filter: Seq<char>, account_filter: Seq<char>) -> bool {
    &&& (type_filter.len() > 0 ==> b.balance_type@ == type_filter)
    &&& (account_filter.len() > 0 ==> b.account.id == (match parsed_i64(account_filter) { Some(v) => v, None => 0 }))
}

/// The indices, in order, of the balances that pass the filters.
pub fn filter_balances(balances: &Vec<BalanceRow>, type_filter: &str, account_filter: &str) -> (r: Vec<usize>)
    ensures
        forall|a: int, b: int| 0 <= a < b < r.len() ==> r@[a] < r@[b],
        forall|a: int| 0 <= a < r.len() ==> (#[trigger] r@[a]) < balances.len(),
        forall|i: int| 0 <= i < balances.len() ==> (r@.contains(i as usize)
            <==> balance_matches(#[trigger] balances@[i], type_filter@, account_filter@)),
{
    let acc_id: i64 = match parse_i64(account_filter) {
        Some(v) => v,
        None => 0,
    };
    let mut flags: Vec<bool> = Vec::new();
    let mut i: usize = 0;
    while i < balances.len()
        invariant
            acc_id == (match parsed_i64(account_filter@) { Some(v) => v, None => 0 }),
            i <= balances.len(),
            flags.len() == i,
            forall|j: int| 0 <= j < i ==> #[trigger] flags@[j] == balance_matches(balances@[j], type_filter@, account_filter@),
        decreases balances.len() - i,
    {
        let b = &balances[i];
        let type_ok = type_filter.is_empty() || str_eq(b.balance_type.as_str(), type_filter);
        let acc_ok = account_filter.is_empty() || b.account.id == acc_id;
        flags.push(type_ok && acc_ok);
        i = i + 1;
    }
    let r = indices_where(&flags);
    assert forall|i: int| 0 <= i < balances.len() implies (r@.contains(i as usize)
        <==> balance_matches(#[trigger] balances@[i], type_filter@, account_filter@)) by {
        assert(flags@[i] == balance_matches(balances@[i], type_filter@, account_filter@));
    }
    r
}

/// Law: each filter of the balances list bounds the listed balances on its
/// own, whatever the other one is. With a type filter every listed balance
/// has that type; with an account filter every listed balance is on the
/// account whose id the filter reads as (0 when it is not a number), so with
/// the text of an id `n` every listed balance is on account `n`. A balance
/// that meets both is listed. `r` is what `filter_balances` gives for these
/// filters.
pub proof fn lemma_balance_filters(balances: Seq<BalanceRow>, type_filter: Seq<char>, account_filter: Seq<char>, r: Seq<usize>)
    requires
        forall|a: int| 0 <= a < r.len() ==> (#[trigger] r[a]) < balances.len(),
        forall|i: int| 0 <= i < balances.len() ==> (r.contains(i as usize)
            <==> balance_matches(#[trigger] balances[i], type_filter, account_filter)),
    ensures
        forall|a: int| 0 <= a < r.len() && type_filter.len() > 0
            ==> balances[#[trigger] r[a] as int].balance_type@ == type_filter,
        forall|a: int| 0 <= a < r.len() && account_filter.len() > 0
            ==> balances[#[trigger] r[a] as int].account.id == (match parsed_i64(account_filter) { Some(v) => v, None => 0 }),
        forall|a: int, n: i64| 0 <= a < r.len() && account_filter == #[trigger] int_text(n as int)
            ==> balances[#[trigger] r[a] as int].account.id == n,
        forall|i: int| 0 <= i < balances.len()
            && (type_filter.len() > 0 ==> (#[trigger] balances[i]).balance_type@ == type_filter)
            && (account_filter.len() > 0 ==> balances[i].account.id == (match parsed_i64(account_filter) { Some(v) => v, None => 0 }))
            ==> r.contains(i as usize),
{
    assert forall|a: int| 0 <= a < r.len() implies balance_matches(balances[#[trigger] r[a] as int], type_filter, account_filter) by {
        assert(r.contains(r[a]));
    }
    assert forall|a: int, n: i64| 0 <= a < r.len() && account_filter == #[trigger] int_text(n as int)
        implies balances[#[trigger] r[a] as int].account.id == n by {
        lemma_i64_roundtrip(n);
        if n < 0 {
            lemma_nat_text((-n) as nat);
        } else {
            lemma_nat_text(n as nat);
        }
        assert(account_filter.len() > 0);
        assert(r.contains(r[a]));
    }
}

/// The accounts offered for a balance type: those of group 4 (codes starting
/// "4") for a counterpart balance, of group 3 ("3") for a product balance,
/// all of them otherwise.
pub open spec fn account_offered_for(a: Account, balance_type: Seq<char>) -> bool {
    if balance_type == "counterpart"@ {
        has_prefix(a.code@, "4"@)
    } else if balance_type == "product"@ {
        has_prefix(a.code@, "3"@)
    } else {
        true
    }
}

/// The indices, in order, of the accounts offered for a balance type.
pub fn accounts_for_balance_type(accounts: &Vec<Account>, balance_type: &str) -> (r: Vec<usize>)
    ensures
        forall|a: int, b: int| 0 <= a < b < r.len() ==> r@[a] < r@[b],
        forall|a: int| 0 <= a < r.len() ==> (#[trigger] r@[a]) < accounts.len(),
        forall|i: int| 0 <= i < accounts.len() ==> (r@.contains(i as usize)
            <==> account_offered_for(#[trigger] accounts@[i], balance_type@)),
{
    let counterpart = str_eq(balance_type, "counterpart");
    let product = str_eq(balance_type, "product");
    let mut flags: Vec<bool> = Vec::new();
    let mut i: usize = 0;
    while i < accounts.len()
        invariant
            counterpart == (balance_type@ == "counterpart"@),
            product == (balance_type@ == "product"@),
            i <= accounts.len(),
            flags.len() == i,
            forall|j: int| 0 <= j < i ==> #[trigger] flags@[j] == account_offered_for(accounts@[j], balance_type@),
        decreases accounts.len() - i,
    {
        let code = accounts[i].code.as_str();
        let ok = if counterpart {
            starts_with(code, "4")
        } else if product {
            starts_with(code, "3")
        } else {
            true
        };
        flags.push(ok);
        i = i + 1;
    }
    let r = indices_where(&flags);
    assert forall|i: int| 0 <= i < accounts.len() implies (r@.contains(i as usize)
        <==> account_offered_for(#[trigger] accounts@[i], balance_type@)) by {
        assert(flags@[i] == account_offered_for(accounts@[i], balance_type@));
    }
    r
}

/// Whether the balance form offers a counterpart: for a counterpart balance.
pub fn shows_counterpart_select(balance_type: &str) -> (r: bool)
    ensures
        r == (balance_type@ == "counterpart"@),
{
    str_eq(balance_type, "counterpart")
}

/// Whether the balance form offers a product and its quantity: for a product
/// balance.
pub fn shows_product_fields(balance_type: &str) -> (r: bool)
    ensures
        r == (balance_type@ == "product"@),
{
    str_eq(balance_type, "product")
}

/// Law: a counterpart balance is offered the accounts of group 4 (codes
/// starting "4"), a product balance those of group 3 (codes starting "3"),
/// any other balance every account; so the two groups never share an
/// account. `counterpart`, `product` and `other` are what
/// `accounts_for_balance_type` gives for "counterpart", "product" and for a
/// type that is neither.
pub proof fn lemma_offered_accounts(accounts: Seq<Account>, other_type: Seq<char>,
    counterpart: Seq<usize>, product: Seq<usize>, other: Seq<usize>)
    requires
        other_type != "counterpart"@ && other_type != "product"@,
        forall|i: int| 0 <= i < accounts.len() ==> (counterpart.contains(i as usize) <==> account_offered_for(#[trigger] accounts[i], "counterpart"@)),
        forall|i: int| 0 <= i < accounts.len() ==> (product.contains(i as usize) <==> account_offered_for(#[trigger] accounts[i], "product"@)),
        forall|i: int| 0 <= i < accounts.len() ==> (other.contains(i as usize) <==> account_offered_for(#[trigger] accounts[i], other_type)),
    ensures
        forall|i: int| 0 <= i < accounts.len() ==> (counterpart.contains(i as usize) <==> has_prefix((#[trigger] accounts[i]).code@, "4"@)),
        forall|i: int| 0 <= i < accounts.len() ==> (product.contains(i as usize) <==> has_prefix((#[trigger] accounts[i]).code@, "3"@)),
        forall|i: int| 0 <= i < accounts.len() ==> #[trigger] other.contains(i as usize),
        forall|i: int| 0 <= i < accounts.len() ==> !(counterpart.contains(i as usize) && #[trigger] product.contains(i as usize)),
{
    reveal_strlit("counterpart");
    reveal_strlit("product");
    reveal_strlit("3");
    reveal_strlit("4");
    assert("counterpart"@[0] != "product"@[0]);
    assert forall|i: int| 0 <= i < accounts.len() implies #[trigger] other.contains(i as usize) by {
        assert(account_offered_for(accounts[i], other_type));
    }
    assert forall|i: int| 0 <= i < accounts.len() implies !(counterpart.contains(i as usize) && #[trigger] product.contains(i as usize)) by {
        let c = accounts[i].code@;
        if counterpart.contains(i as usize) && product.contains(i as usize) {
            assert(account_offered_for(accounts[i], "counterpart"@));
            assert(account_offered_for(accounts[i], "product"@));
            assert(c.take(1)[0] == c[0]);
        }
    }
}

/// The analytic detail shown for a balance: the counterpart's name for a
/// counterpart balance, `code - name` of the product for a product balance,
/// "-" when that is missing or for any other type.
pub open spec fn analyticity(b: BalanceRow) -> Seq<char> {
    if b.balance_type@ == "counterpart"@ {
        match b.counterpart {
            Some(c) => c.name@,
            None => "-"@,
        }
    } else if b.balance_type@ == "product"@ {
        match b.product {
            Some(p) => p.code@ + " - "@ + p.name@,
            None => "-"@,
        }
    } else {
        "-"@
    }
}

pub fn balance_analyticity(b: &BalanceRow) -> (r: String)
    ensures
        r@ == analyticity(*b),
{
    if str_eq(b.balance_type.as_str(), "counterpart") {
        match &b.counterpart {
            Some(c) => owned(c.name.as_str()),
            None => owned("-"),
        }
    } else if str_eq(b.balance_type.as_str(), "product") {
        match &b.product {
            Some(p) => {
                let mut r = concat(p.code.as_str(), " - ");
                r.append(p.name.as_str());
                r
            },
            None => owned("-"),
        }
    } else {
        owned("-")
    }
}

/// A balance can only be saved with an account chosen.
pub fn check_balance_account(account_id: Option<i64>) -> (r: Result<i64, &'static str>)
    ensures
        match account_id {
            Some(id) => r == Ok::<i64, &'static str>(id),
            None => r matches Err(m) && m@ == "Изберете сметка"@,
        },
{
    match account_id {
        Some(id) => Ok(id),
        None => Err("Изберете сметка"),
    }
}

/// Where a balance is saved: `/api/companies/1/opening_balances/{id}` for an
/// edit (sent with PUT), `/api/companies/1/opening_balances` for a new one
/// (sent with POST).
pub fn balance_save_url(editing_id: Option<i64>) -> (r: String)
    ensures
        r@ == (match editing_id {
            Some(id) => "/api/companies/1/opening_balances/"@ + int_text(id as int),
            None => "/api/companies/1/opening_balances"@,
        }),
{
    match editing_id {
        Some(id) => {
            let t = int_to_string(id);
            concat("/api/companies/1/opening_balances/", t.as_str())
        },
        None => owned("/api/companies/1/opening_balances"),
    }
}

/// The message shown after a balance is saved.
pub fn balance_saved_message(is_edit: bool) -> (r: &'static str)
    ensures
        r@ == (if is_edit { "Салдото е обновено"@ } else { "Салдото е добавено"@ }),
{
    if is_edit { "Салдото е обновено" } else { "Салдото е добавено" }
}

/// The text fields and choices of the balance form (the amounts, floats, stay
/// with the caller).
#[derive(Debug)]
pub struct BalanceForm {
    pub editing_id: Option<i64>,
    pub date: String,
    pub description: String,
    pub balance_type: String,
    pub account_id: Option<i64>,
    pub counterpart_id: Option<i64>,
    pub product_id: Option<i64>,
}

/// The form for a new balance: dated today, an account balance, nothing
/// chosen.
pub fn new_balance_form(today: &str) -> (f: BalanceForm)
    ensures
        f.editing_id.is_none(),
        f.date@ == today@,
        f.description@.len() == 0,
        f.balance_type@ == "account"@,
        f.account_id.is_none() && f.counterpart_id.is_none() && f.product_id.is_none(),
{
    BalanceForm {
        editing_id: None,
        date: owned(today),
        description: String::new(),
        balance_type: owned("account"),
        account_id: None,
        counterpart_id: None,
        product_id: None,
    }
}

/// The form filled from a balance for editing.
pub fn balance_form_for(b: &BalanceRow) -> (f: BalanceForm)
    ensures
        f.editing_id == Some(b.id),
        f.date@ == b.date@,
        f.description@ == (match b.description { Some(d) => d@, None => Seq::empty() }),
        f.balance_type@ == b.balance_type@,
        f.account_id == Some(b.account.id),
        f.counterpart_id == (match b.counterpart { Some(c) => Some(c.id), None => None::<i64> }),
        f.product_id == (match b.product { Some(p) => Some(p.id), None => None::<i64> }),
{
    proof {
        reveal_strlit("");
    }
    BalanceForm {
        editing_id: Some(b.id),
        date: owned(b.date.as_str()),
        description: text_or(&b.description, ""),
        balance_type: owned(b.balance_type.as_str()),
        account_id: Some(b.account.id),
        counterpart_id: match &b.counterpart { Some(c) => Some(c.id), None => None },
        product_id: match &b.product { Some(p) => Some(p.id), None => None },
    }
}

/// The description sent with a balance: only a non-empty one is sent.
pub fn balance_description(form: &BalanceForm) -> (r: Option<String>)
    ensures
        r.is_some() == (form.description@.len() > 0),
        r matches Some(d) ==> d@ == form.description@,
{
    non_empty(form.description.as_str())
}

/// The message after a balance is saved: the saved message on success, a
/// general error when refused, the request's error when it failed.
pub fn balance_save_notice(is_edit: bool, reply: Outcome) -> (r: Notice)
    ensures
        match reply {
            Outcome::Answered { success, message } => if success {
                r matches Notice::Success(m) && m@ == (if is_edit { "Салдото е обновено"@ } else { "Салдото е добавено"@ })
            } else {
                r matches Notice::Error(m) && m@ == "Грешка при запис"@
            },
            Outcome::Failed(e) => r matches Notice::Error(m) && m@ == failure_text(e@),
        },
{
    match reply {
        Outcome::Answered { success, message } => {
            if success {
                Notice::Success(owned(balance_saved_message(is_edit)))
            } else {
                Notice::Error(owned("Грешка при запис"))
            }
        },
        Outcome::Failed(e) => Notice::Error(failure_message(e.as_str())),
    }
}

/// The message after a balance is deleted, or after the delete failed.
pub fn balance_delete_notice(result: Result<(), String>) -> (r: Notice)
    ensures
        match result {
            Ok(_) => r matches Notice::Success(m) && m@ == "Салдото е изтрито"@,
            Err(e) => r matches Notice::Error(m) && m@ == "Грешка при изтриване: "@ + e@,
        },
{
    match result {
        Ok(_) => Notice::Success(owned("Салдото е изтрито")),
        Err(e) => Notice::Error(concat("Грешка при изтриване: ", e.as_str())),
    }
}

/// The message of a failed load of the balances.
pub fn balances_load_error(error: &str) -> (r: String)
    ensures
        r@ == "Грешка при зареждане на салда: "@ + error@,
{
    concat("Грешка при зареждане на салда: ", error)
}

/// What a balance's save sends (its debit, credit and quantity, floats, are
/// added by the caller): the date, type and account, the description only
/// where not empty, and the counterpart and product where chosen.
#[derive(Debug, Clone)]
pub struct BalanceRequest {
    pub date: String,
    pub balance_type: String,
    pub account_id: i64,
    pub description: Option<String>,
    pub counterpart_id: Option<i64>,
    pub product_id: Option<i64>,
}

/// The request of a save, or the error when no account is chosen (then
/// nothing is sent).
pub fn balance_request(form: &BalanceForm) -> (r: Result<BalanceRequest, &'static str>)
    ensures
        match form.account_id {
            Some(id) => r matches Ok(req) && {
                &&& req.account_id == id
                &&& req.date@ == form.date@
                &&& req.balance_type@ == form.balance_type@
                &&& req.description.is_some() == (form.description@.len() > 0)
                &&& (req.description matches Some(d) ==> d@ == form.description@)
                &&& req.counterpart_id == form.counterpart_id
                &&& req.product_id == form.product_id
            },
            None => r matches Err(m) && m@ == "Изберете сметка"@,
        },
{
    match check_balance_account(form.account_id) {
        Err(m) => Err(m),
        Ok(id) => Ok(BalanceRequest {
            date: owned(form.date.as_str()),
            balance_type: owned(form.balance_type.as_str()),
            account_id: id,
            description: balance_description(form),
            counterpart_id: form.counterpart_id,
            product_id: form.product_id,
        }),
    }
}

} // verus!
