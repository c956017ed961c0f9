//! The products page: product types and units of measure, the product list's
//! filters and counts, and the product form.

use vstd::prelude::*;
use crate::text::{str_eq, starts_with, folded_contains, opt_folded_contains, folded_match,
    has_prefix, has_substring, text_or, owned, concat, to_lowercase, lowercase};
use crate::numtext::{int_to_string, int_text, parse_i64, parsed_i64};
use crate::groups::{counts_by_key, count_of, views, keys_of, KeyCount};

use crate::answers::{Outcome, Notice, failure_text, failure_message};

verus! {

/// A SAF-T product type as the server lists it.
#[derive(Debug, Clone, Default)]
pub struct SaftProductType {
    pub id: i64,
    pub code: String,
    pub name: String,
    pub description: Option<String>,
}

/// An account offered in the product form's account lists.
#[derive(Debug, Clone, Default)]
pub struct Account {
    pub id: i64,
    pub code: String,
    pub name: String,
}

/// The fields of a product that the page's logic reads (the price, a float,
/// stays with the caller).
#[derive(Debug, Clone, Default)]
pub struct ProductRow {
    pub id: i64,
    pub code: String,
    pub name: String,
    pub description: Option<String>,
    pub product_type: Option<String>,
    pub measure_unit: Option<String>,
    pub tax_code: Option<String>,
    pub inventory_account_id: Option<i64>,
    pub revenue_account_id: Option<i64>,
}

// ---------------------------------------------------------------------------
// Reference tables
// ---------------------------------------------------------------------------

/// The SAF-T product types offered in the form, with their names.
pub open spec fn product_type_table() -> Seq<(Seq<char>, Seq<char>)> {
    seq![
        ("10"@, "Материали"@),
        ("20"@, "Продукция"@),
        ("30"@, "Стоки"@),
        ("40"@, "Незавършено производство"@),
        ("50"@, "Инвестиция в материален запас"@),
        ("S"@, "Услуги"@),
    ]
}

/// The units of measure offered in the form (UN/CEFACT codes), with names.
pub open spec fn unit_table() -> Seq<(Seq<char>, Seq<char>)> {
    seq![
        ("C62"@, "брой"@),
        ("KGM"@, "кг"@),
        ("GRM"@, "грам"@),
        ("TNE"@, "тон"@),
        ("LTR"@, "литър"@),
        ("MTR"@, "метър"@),
        ("MTK"@, "кв.м"@),
        ("MTQ"@, "куб.м"@),
        ("HUR"@, "час"@),
        ("DAY"@, "ден"@),
        ("MON"@, "месец"@),
        ("ANN"@, "година"@),
        ("SET"@, "комплект"@),
        ("PR"@, "чифт"@),
        ("PCE"@, "парче"@),
    ]
}

pub open spec fn pair_views(v: Seq<(&str, &str)>) -> Seq<(Seq<char>, Seq<char>)> {
    v.map_values(|p: (&str, &str)| (p.0@, p.1@))
}

/// The SAF-T product types, code and name.
pub fn get_product_types() -> (r: Vec<(&'static str, &'static str)>)
    ensures
        pair_views(r@) == product_type_table(),
{
    let r = vec![
        ("10", "Материали"),
        ("20", "Продукция"),
        ("30", "Стоки"),
        ("40", "Незавършено производство"),
        ("50", "Инвестиция в материален запас"),
        ("S", "Услуги"),
    ];
    assert(pair_views(r@) =~= product_type_table());
    r
}

/// The units of measure, code and name.
pub fn get_units_of_measure() -> (r: Vec<(&'static str, &'static str)>)
    ensures
        pair_views(r@) == unit_table(),
{
    let r = vec![
        ("C62", "брой"),
        ("KGM", "кг"),
        ("GRM", "грам"),
        ("TNE", "тон"),
        ("LTR", "литър"),
        ("MTR", "метър"),
        ("MTK", "кв.м"),
        ("MTQ", "куб.м"),
        ("HUR", "час"),
        ("DAY", "ден"),
        ("MON", "месец"),
        ("ANN", "година"),
        ("SET", "комплект"),
        ("PR", "чифт"),
        ("PCE", "парче"),
    ];
    assert(pair_views(r@) =~= unit_table());
    r
}

/// The short name shown for a product type code.
pub open spec fn product_type_name(code: Seq<char>) -> Seq<char> {
    if code == "10"@ { "Материали"@ }
    else if code == "20"@ { "Продукция"@ }
    else if code == "30"@ { "Стоки"@ }
    else if code == "40"@ { "Незавършено производство"@ }
    else if code == "50"@ { "Инвестиция"@ }
    else if code == "S"@ { "Услуги"@ }
    else { "Друго"@ }
}

/// The badge colour of a product type code.
pub open spec fn product_type_color(code: Seq<char>) -> Seq<char> {
    if code == "10"@ { "#3498db"@ }
    else if code == "20"@ { "#27ae60"@ }
    else if code == "30"@ { "#9b59b6"@ }
    else if code == "40"@ { "#f39c12"@ }
    else if code == "50"@ { "#e74c3c"@ }
    else if code == "S"@ { "#1abc9c"@ }
    else { "#7f8c8d"@ }
}

/// The name shown for a unit of measure code.
pub open spec fn unit_name(code: Seq<char>) -> Seq<char> {
    if code == "C62"@ { "брой"@ }
    else if code == "KGM"@ { "кг"@ }
    else if code == "GRM"@ { "грам"@ }
    else if code == "TNE"@ { "тон"@ }
    else if code == "LTR"@ { "литър"@ }
    else if code == "MTR"@ { "метър"@ }
    else if code == "MTK"@ { "кв.м"@ }
    else if code == "MTQ"@ { "куб.м"@ }
    else if code == "HUR"@ { "час"@ }
    else if code == "DAY"@ { "ден"@ }
    else if code == "MON"@ { "месец"@ }
    else if code == "ANN"@ { "година"@ }
    else if code == "SET"@ { "комплект"@ }
    else if code == "PR"@ { "чифт"@ }
    else if code == "PCE"@ { "парче"@ }
    else { "бр."@ }
}

pub fn get_product_type_name(code: &str) -> (r: &'static str)
    ensures
        r@ == product_type_name(code@),
{
    if str_eq(code, "10") { "Материали" }
    else if str_eq(code, "20") { "Продукция" }
    else if str_eq(code, "30") { "Стоки" }
    else if str_eq(code, "40") { "Незавършено производство" }
    else if str_eq(code, "50") { "Инвестиция" }
    else if str_eq(code, "S") { "Услуги" }
    else { "Друго" }
}

pub fn get_product_type_color(code: &str) -> (r: &'static str)
    ensures
        r@ == product_type_color(code@),
{
    if str_eq(code, "10") { "#3498db" }
    else if str_eq(code, "20") { "#27ae60" }
    else if str_eq(code, "30") { "#9b59b6" }
    else if str_eq(code, "40") { "#f39c12" }
    else if str_eq(code, "50") { "#e74c3c" }
    else if str_eq(code, "S") { "#1abc9c" }
    else { "#7f8c8d" }
}

pub fn get_unit_name(code: &str) -> (r: &'static str)
    ensures
        r@ == unit_name(code@),
{
    if str_eq(code, "C62") { "брой" }
    else if str_eq(code, "KGM") { "кг" }
    else if str_eq(code, "GRM") { "грам" }
    else if str_eq(code, "TNE") { "тон" }
    else if str_eq(code, "LTR") { "литър" }
    else if str_eq(code, "MTR") { "метър" }
    else if str_eq(code, "MTK") { "кв.м" }
    else if str_eq(code, "MTQ") { "куб.м" }
    else if str_eq(code, "HUR") { "час" }
    else if str_eq(code, "DAY") { "ден" }
    else if str_eq(code, "MON") { "месец" }
    else if str_eq(code, "ANN") { "година" }
    else if str_eq(code, "SET") { "комплект" }
    else if str_eq(code, "PR") { "чифт" }
    else if str_eq(code, "PCE") { "парче" }
    else { "бр." }
}

/// Law: every unit listed in the form is shown under the name it is listed
/// with.
pub proof fn lemma_unit_names_agree()
    ensures
        forall|i: int| 0 <= i < unit_table().len() ==> unit_name((#[trigger] unit_table()[i]).0) == unit_table()[i].1,
{
    reveal_strlit("C62"); reveal_strlit("KGM"); reveal_strlit("GRM"); reveal_strlit("TNE");
    reveal_strlit("LTR"); reveal_strlit("MTR"); reveal_strlit("MTK"); reveal_strlit("MTQ");
    reveal_strlit("HUR"); reveal_strlit("DAY"); reveal_strlit("MON"); reveal_strlit("ANN");
    reveal_strlit("SET"); reveal_strlit("PR"); reveal_strlit("PCE");
    assert("KGM"@[0] != "C62"@[0]);
    assert("GRM"@[0] != "C62"@[0]);
    assert("GRM"@[0] != "KGM"@[0]);
    assert("TNE"@[0] != "C62"@[0]);
    assert("TNE"@[0] != "KGM"@[0]);
    assert("TNE"@[0] != "GRM"@[0]);
    assert("LTR"@[0] != "C62"@[0]);
    assert("LTR"@[0] != "KGM"@[0]);
    assert("LTR"@[0] != "GRM"@[0]);
    assert("LTR"@[0] != "TNE"@[0]);
    assert("MTR"@[0] != "C62"@[0]);
    assert("MTR"@[0] != "KGM"@[0]);
    assert("MTR"@[0] != "GRM"@[0]);
    assert("MTR"@[0] != "TNE"@[0]);
    assert("MTR"@[0] != "LTR"@[0]);
    assert("MTK"@[0] != "C62"@[0]);
    assert("MTK"@[0] != "KGM"@[0]);
    assert("MTK"@[0] != "GRM"@[0]);
    assert("MTK"@[0] != "TNE"@[0]);
    assert("MTK"@[0] != "LTR"@[0]);
    assert("MTK"@[2] != "MTR"@[2]);
    assert("MTQ"@[0] != "C62"@[0]);
    assert("MTQ"@[0] != "KGM"@[0]);
    assert("MTQ"@[0] != "GRM"@[0]);
    assert("MTQ"@[0] != "TNE"@[0]);
    assert("MTQ"@[0] != "LTR"@[0]);
    assert("MTQ"@[2] != "MTR"@[2]);
    assert("MTQ"@[2] != "MTK"@[2]);
    assert("HUR"@[0] != "C62"@[0]);
    assert("HUR"@[0] != "KGM"@[0]);
    assert("HUR"@[0] != "GRM"@[0]);
    assert("HUR"@[0] != "TNE"@[0]);
    assert("HUR"@[0] != "LTR"@[0]);
    assert("HUR"@[0] != "MTR"@[0]);
    assert("HUR"@[0] != "MTK"@[0]);
    assert("HUR"@[0] != "MTQ"@[0]);
    assert("DAY"@[0] != "C62"@[0]);
    assert("DAY"@[0] != "KGM"@[0]);
    assert("DAY"@[0] != "GRM"@[0]);
    assert("DAY"@[0] != "TNE"@[0]);
    assert("DAY"@[0] != "LTR"@[0]);
    assert("DAY"@[0] != "MTR"@[0]);
    assert("DAY"@[0] != "MTK"@[0]);
    assert("DAY"@[0] != "MTQ"@[0]);
    assert("DAY"@[0] != "HUR"@[0]);
    assert("MON"@[0] != "C62"@[0]);
    assert("MON"@[0] != "KGM"@[0]);
    assert("MON"@[0] != "GRM"@[0]);
    assert("MON"@[0] != "TNE"@[0]);
    assert("MON"@[0] != "LTR"@[0]);
    assert("MON"@[1] != "MTR"@[1]);
    assert("MON"@[1] != "MTK"@[1]);
    assert("MON"@[1] != "MTQ"@[1]);
    assert("MON"@[0] != "HUR"@[0]);
    assert("MON"@[0] != "DAY"@[0]);
    assert("ANN"@[0] != "C62"@[0]);
    assert("ANN"@[0] != "KGM"@[0]);
    assert("ANN"@[0] != "GRM"@[0]);
    assert("ANN"@[0] != "TNE"@[0]);
    assert("ANN"@[0] != "LTR"@[0]);
    assert("ANN"@[0] != "MTR"@[0]);
    assert("ANN"@[0] != "MTK"@[0]);
    assert("ANN"@[0] != "MTQ"@[0]);
    assert("ANN"@[0] != "HUR"@[0]);
    assert("ANN"@[0] != "DAY"@[0]);
    assert("ANN"@[0] != "MON"@[0]);
    assert("SET"@[0] != "C62"@[0]);
    assert("SET"@[0] != "KGM"@[0]);
    assert("SET"@[0] != "GRM"@[0]);
    assert("SET"@[0] != "TNE"@[0]);
    assert("SET"@[0] != "LTR"@[0]);
    assert("SET"@[0] != "MTR"@[0]);
    assert("SET"@[0] != "MTK"@[0]);
    assert("SET"@[0] != "MTQ"@[0]);
    assert("SET"@[0] != "HUR"@[0]);
    assert("SET"@[0] != "DAY"@[0]);
    assert("SET"@[0] != "MON"@[0]);
    assert("SET"@[0] != "ANN"@[0]);
    assert("PR"@.len() != "C62"@.len());
    assert("PR"@.len() != "KGM"@.len());
    assert("PR"@.len() != "GRM"@.len());
    assert("PR"@.len() != "TNE"@.len());
    assert("PR"@.len() != "LTR"@.len());
    assert("PR"@.len() != "MTR"@.len());
    assert("PR"@.len() != "MTK"@.len());
    assert("PR"@.len() != "MTQ"@.len());
    assert("PR"@.len() != "HUR"@.len());
    assert("PR"@.len() != "DAY"@.len());
    assert("PR"@.len() != "MON"@.len());
    assert("PR"@.len() != "ANN"@.len());
    assert("PR"@.len() != "SET"@.len());
    assert("PCE"@[0] != "C62"@[0]);
    assert("PCE"@[0] != "KGM"@[0]);
    assert("PCE"@[0] != "GRM"@[0]);
    assert("PCE"@[0] != "TNE"@[0]);
    assert("PCE"@[0] != "LTR"@[0]);
    assert("PCE"@[0] != "MTR"@[0]);
    assert("PCE"@[0] != "MTK"@[0]);
    assert("PCE"@[0] != "MTQ"@[0]);
    assert("PCE"@[0] != "HUR"@[0]);
    assert("PCE"@[0] != "DAY"@[0]);
    assert("PCE"@[0] != "MON"@[0]);
    assert("PCE"@[0] != "ANN"@[0]);
    assert("PCE"@[0] != "SET"@[0]);
    assert("PCE"@.len() != "PR"@.len());
    assert(unit_name("C62"@) == "брой"@);
    assert(unit_name("KGM"@) == "кг"@);
    assert(unit_name("GRM"@) == "грам"@);
    assert(unit_name("TNE"@) == "тон"@);
    assert(unit_name("LTR"@) == "литър"@);
    assert(unit_name("MTR"@) == "метър"@);
    assert(unit_name("MTK"@) == "кв.м"@);
    assert(unit_name("MTQ"@) == "куб.м"@);
    assert(unit_name("HUR"@) == "час"@);
    assert(unit_name("DAY"@) == "ден"@);
    assert(unit_name("MON"@) == "месец"@);
    assert(unit_name("ANN"@) == "година"@);
    assert(unit_name("SET"@) == "комплект"@);
    assert(unit_name("PR"@) == "чифт"@);
    assert(unit_name("PCE"@) == "парче"@);
    assert forall|i: int| 0 <= i < unit_table().len() implies unit_name((#[trigger] unit_table()[i]).0) == unit_table()[i].1 by {
        if i == 0 { assert(unit_table()[i] == ("C62"@, "брой"@)); }
        if i == 1 { assert(unit_table()[i] == ("KGM"@, "кг"@)); }
        if i == 2 { assert(unit_table()[i] == ("GRM"@, "грам"@)); }
        if i == 3 { assert(unit_table()[i] == ("TNE"@, "тон"@)); }
        if i == 4 { assert(unit_table()[i] == ("LTR"@, "литър"@)); }
        if i == 5 { assert(unit_table()[i] == ("MTR"@, "метър"@)); }
        if i == 6 { assert(unit_table()[i] == ("MTK"@, "кв.м"@)); }
        if i == 7 { assert(unit_table()[i] == ("MTQ"@, "куб.м"@)); }
        if i == 8 { assert(unit_table()[i] == ("HUR"@, "час"@)); }
        if i == 9 { assert(unit_table()[i] == ("DAY"@, "ден"@)); }
        if i == 10 { assert(unit_table()[i] == ("MON"@, "месец"@)); }
        if i == 11 { assert(unit_table()[i] == ("ANN"@, "година"@)); }
        if i == 12 { assert(unit_table()[i] == ("SET"@, "комплект"@)); }
        if i == 13 { assert(unit_table()[i] == ("PR"@, "чифт"@)); }
        if i == 14 { assert(unit_table()[i] == ("PCE"@, "парче"@)); }
    }
}

/// Law: every product type listed in the form but investment stock ("50") is
/// shown under the name it is listed with; "50" is shown shortened.
pub proof fn lemma_product_type_names_agree()
    ensures
        forall|i: int| 0 <= i < product_type_table().len() && (#[trigger] product_type_table()[i]).0 != "50"@
            ==> product_type_name(product_type_table()[i].0) == product_type_table()[i].1,
        product_type_name("50"@) == "Инвестиция"@,
{
    reveal_strlit("10"); reveal_strlit("20"); reveal_strlit("30");
    reveal_strlit("40"); reveal_strlit("50"); reveal_strlit("S");
    assert("20"@[0] != "10"@[0]);
    assert("30"@[0] != "10"@[0]);
    assert("30"@[0] != "20"@[0]);
    assert("40"@[0] != "10"@[0]);
    assert("40"@[0] != "20"@[0]);
    assert("40"@[0] != "30"@[0]);
    assert("50"@[0] != "10"@[0]);
    assert("50"@[0] != "20"@[0]);
    assert("50"@[0] != "30"@[0]);
    assert("50"@[0] != "40"@[0]);
    assert("S"@.len() != "10"@.len());
    assert("S"@.len() != "20"@.len());
    assert("S"@.len() != "30"@.len());
    assert("S"@.len() != "40"@.len());
    assert("S"@.len() != "50"@.len());
    assert(product_type_name("10"@) == "Материали"@);
    assert(product_type_name("20"@) == "Продукция"@);
    assert(product_type_name("30"@) == "Стоки"@);
    assert(product_type_name("40"@) == "Незавършено производство"@);
    assert(product_type_name("S"@) == "Услуги"@);
    assert(product_type_name("50"@) == "Инвестиция"@);
    assert forall|i: int| 0 <= i < product_type_table().len() && (#[trigger] product_type_table()[i]).0 != "50"@ implies product_type_name(product_type_table()[i].0) == product_type_table()[i].1 by {
        if i == 0 { assert(product_type_table()[i] == ("10"@, "Материали"@)); }
        if i == 1 { assert(product_type_table()[i] == ("20"@, "Продукция"@)); }
        if i == 2 { assert(product_type_table()[i] == ("30"@, "Стоки"@)); }
        if i == 3 { assert(product_type_table()[i] == ("40"@, "Незавършено производство"@)); }
        if i == 4 { assert(product_type_table()[i] == ("50"@, "Инвестиция в материален запас"@)); }
        if i == 5 { assert(product_type_table()[i] == ("S"@, "Услуги"@)); }
    }
}

// ---------------------------------------------------------------------------
// The product list
// ---------------------------------------------------------------------------

/// Whether a product passes the page's filters: the type filter (when set)
/// asks for that product type; a non-empty (lowercased) query must occur in
/// the lowercased code, name or description.
pub open spec fn product_matches(p: ProductRow, query: Seq<char>, type_filter: Seq<char>) -> bool {
    &&& (type_filter.len() > 0 ==> (p.product_type matches Some(t) && t@ == type_filter))
    &&& (query.len() > 0 ==> {
        ||| folded_match(p.code@, query)
        ||| folded_match(p.name@, query)
        ||| (p.description matches Some(d) && folded_match(d@, query))
    })
}

/// The indices, in order, of the products that pass the filters, the query
/// taken lowercased.
pub fn filter_products(products: &Vec<ProductRow>, search_query: &str, filter_type: &str) -> (r: Vec<usize>)
    ensures
        forall|a: int, b: int| 0 <= a < b < r.len() ==> r@[a] < r@[b],
        forall|a: int| 0 <= a < r.len() ==> (#[trigger] r@[a]) < products.len(),
        forall|i: int| 0 <= i < products.len() ==> (r@.contains(i as usize)
            <==> product_matches(#[trigger] products@[i], lowercase(search_query@), filter_type@)),
{
    let q = to_lowercase(search_query);
    let mut r: Vec<usize> = Vec::new();
    let mut i: usize = 0;
    while i < products.len()
        invariant
            q@ == lowercase(search_query@),
            i <= products.len(),
            forall|a: int, b: int| 0 <= a < b < r.len() ==> r@[a] < r@[b],
            forall|a: int| 0 <= a < r.len() ==> (#[trigger] r@[a]) < i,
            forall|j: int| 0 <= j < i ==> (r@.contains(j as usize)
                <==> product_matches(#[trigger] products@[j], q@, filter_type@)),
        decreases products.len() - i,
    {
        let p = &products[i];
        let type_ok = if filter_type.is_empty() {
            true
        } else {
            match &p.product_type {
                Some(t) => str_eq(t.as_str(), filter_type),
                None => false,
            }
        };
        let ok = type_ok && (q.as_str().is_empty() || folded_contains(p.code.as_str(), q.as_str())
            || folded_contains(p.name.as_str(), q.as_str())
            || opt_folded_contains(&p.description, q.as_str()));
        let ghost old_r = r@;
        if ok {
            r.push(i);
        }
        assert forall|j: int| 0 <= j < i + 1 implies (r@.contains(j as usize)
            <==> product_matches(#[trigger] products@[j], q@, filter_type@)) by {
            if j < i {
                if r@.contains(j as usize) && !old_r.contains(j as usize) {
                    let a = choose|a: int| 0 <= a < r@.len() && r@[a] == j as usize;
                    assert(a == old_r.len());
                }
                if old_r.contains(j as usize) {
                    let a = choose|a: int| 0 <= a < old_r.len() && old_r[a] == j as usize;
                    assert(r@[a] == old_r[a]);
                }
            } else {
                if ok {
                    assert(r@[old_r.len() as int] == i);
                } else {
                    assert(r@ == old_r);
                }
            }
        }
        i = i + 1;
    }
    r
}

/// Law: the search looks in a product's code, name and description alike,
/// and the type filter stands on its own. A product of the chosen type (any
/// type when none is chosen) whose lowercased code, name or description holds
/// the (lowercased) query is listed; with an empty query every product of
/// the chosen type is. Every listed product has the chosen type, and for a
/// non-empty query its lowercased code, name or description holds it. `r` is
/// what `filter_products` gives for these filters.
pub proof fn lemma_product_filters(products: Seq<ProductRow>, query: Seq<char>, type_filter: Seq<char>, r: Seq<usize>)
    requires
        forall|a: int| 0 <= a < r.len() ==> (#[trigger] r[a]) < products.len(),
        forall|i: int| 0 <= i < products.len() ==> (r.contains(i as usize)
            <==> product_matches(#[trigger] products[i], query, type_filter)),
    ensures
        forall|i: int| 0 <= i < products.len()
            && (type_filter.len() > 0 ==> ((#[trigger] products[i]).product_type matches Some(t) && t@ == type_filter))
            && (query.len() == 0
                || has_substring(lowercase(products[i].code@), query)
                || has_substring(lowercase(products[i].name@), query)
                || (products[i].description matches Some(d) && has_substring(lowercase(d@), query)))
            ==> r.contains(i as usize),
        forall|a: int| 0 <= a < r.len() && type_filter.len() > 0
            ==> (products[#[trigger] r[a] as int].product_type matches Some(t) && t@ == type_filter),
        forall|a: int| 0 <= a < r.len() && query.len() > 0 ==> {
            let p = products[#[trigger] r[a] as int];
            ||| has_substring(lowercase(p.code@), query)
            ||| has_substring(lowercase(p.name@), query)
            ||| (p.description matches Some(d) && has_substring(lowercase(d@), query))
        },
{
    assert forall|a: int| 0 <= a < r.len() implies product_matches(products[#[trigger] r[a] as int], query, type_filter) by {
        assert(r.contains(r[a]));
    }
}

/// The product types of the products that have one, in order.
pub open spec fn present_types(products: Seq<ProductRow>) -> Seq<Seq<char>>
    decreases products.len(),
{
    if products.len() == 0 {
        Seq::empty()
    } else {
        let rest = present_types(products.drop_last());
        match products.last().product_type {
            Some(t) => rest.push(t@),
            None => rest,
        }
    }
}

/// How many products there are of each product type (products without a
/// type are not counted).
pub fn product_type_counts(products: &Vec<ProductRow>) -> (res: Vec<KeyCount>)
    ensures
        forall|a: int, b: int| 0 <= a < b < res.len() ==> res@[a].key@ != res@[b].key@,
        forall|a: int| 0 <= a < res.len() ==> (#[trigger] res@[a]).count == count_of(present_types(products@), res@[a].key@) && res@[a].count > 0,
        forall|i: int| 0 <= i < present_types(products@).len() ==> keys_of(res@).contains(#[trigger] present_types(products@)[i]),
{
    let mut keys: Vec<String> = Vec::new();
    let mut i: usize = 0;
    while i < products.len()
        invariant
            i <= products.len(),
            views(keys@) == present_types(products@.take(i as int)),
        decreases products.len() - i,
    {
        assert(products@.take(i + 1).drop_last() =~= products@.take(i as int));
        match &products[i] .product_type {
            Some(t) => {
                let ghost before = keys@;
                keys.push(owned(t.as_str()));
                assert(views(keys@) =~= views(before).push(t@));
            },
            None => {},
        }
        i = i + 1;
    }
    assert(products@.take(products.len() as int) =~= products@);
    let (r, owner) = counts_by_key(&keys);
    assert forall|i: int| 0 <= i < present_types(products@).len() implies keys_of(r@).contains(#[trigger] present_types(products@)[i]) by {
        let a = owner@[i] as int;
        assert(views(keys@)[i] == keys@[i]@);
        assert(r@[a].key@ == present_types(products@)[i]);
        assert(keys_of(r@)[a] == r@[a].key@);
    }
    r
}

/// Accounts offered as inventory accounts: codes starting "30" or "31".
pub open spec fn is_inventory_account(a: Account) -> bool {
    has_prefix(a.code@, "30"@) || has_prefix(a.code@, "31"@)
}

/// Accounts offered as revenue accounts: codes starting "70" or "71".
pub open spec fn is_revenue_account(a: Account) -> bool {
    has_prefix(a.code@, "70"@) || has_prefix(a.code@, "71"@)
}

/// The indices, in order, of the inventory accounts (`revenue == false`) or
/// of the revenue accounts (`revenue == true`).
pub fn form_accounts(accounts: &Vec<Account>, revenue: bool) -> (r: Vec<usize>)
    ensures
        forall|a: int, b: int| 0 <= a < b < r.len() ==> r@[a] < r@[b],
        forall|a: int| 0 <= a < r.len() ==> (#[trigger] r@[a]) < accounts.len(),
        forall|i: int| 0 <= i < accounts.len() ==> (r@.contains(i as usize) <==>
            (if revenue { is_revenue_account(#[trigger] accounts@[i]) } else { is_inventory_account(accounts@[i]) })),
{
    let mut r: Vec<usize> = Vec::new();
    let mut i: usize = 0;
    while i < accounts.len()
        invariant
            i <= accounts.len(),
            forall|a: int, b: int| 0 <= a < b < r.len() ==> r@[a] < r@[b],
            forall|a: int| 0 <= a < r.len() ==> (#[trigger] r@[a]) < i,
            forall|j: int| 0 <= j < i ==> (r@.contains(j as usize) <==>
                (if revenue { is_revenue_account(#[trigger] accounts@[j]) } else { is_inventory_account(accounts@[j]) })),
        decreases accounts.len() - i,
    {
        let code = accounts[i].code.as_str();
        let ok = if revenue {
            starts_with(code, "70") || starts_with(code, "71")
        } else {
            starts_with(code, "30") || starts_with(code, "31")
        };
        let ghost old_r = r@;
        if ok {
            r.push(i);
        }
        assert forall|j: int| 0 <= j < i + 1 implies (r@.contains(j as usize) <==>
            (if revenue { is_revenue_account(#[trigger] accounts@[j]) } else { is_inventory_account(accounts@[j]) })) by {
            if j < i {
                if r@.contains(j as usize) && !old_r.contains(j as usize) {
                    let a = choose|a: int| 0 <= a < r@.len() && r@[a] == j as usize;
                    assert(a == old_r.len());
                }
                if old_r.contains(j as usize) {
                    let a = choose|a: int| 0 <= a < old_r.len() && old_r[a] == j as usize;
                    assert(r@[a] == old_r[a]);
                }
            } else {
                if ok {
                    assert(r@[old_r.len() as int] == i);
                } else {
                    assert(r@ == old_r);
                }
            }
        }
        i = i + 1;
    }
    r
}

/// Law: the product form offers as inventory accounts exactly those whose
/// code starts "30" or "31", and as revenue accounts exactly those whose code
/// starts "70" or "71"; so no account is offered in both lists. `inventory`
/// and `revenue` are what `form_accounts` gives for `false` and `true`.
pub proof fn lemma_form_accounts(accounts: Seq<Account>, inventory: Seq<usize>, revenue: Seq<usize>)
    requires
        forall|i: int| 0 <= i < accounts.len() ==> (inventory.contains(i as usize) <==> is_inventory_account(#[trigger] accounts[i])),
        forall|i: int| 0 <= i < accounts.len() ==> (revenue.contains(i as usize) <==> is_revenue_account(#[trigger] accounts[i])),
    ensures
        forall|i: int| 0 <= i < accounts.len() ==> (inventory.contains(i as usize)
            <==> (has_prefix((#[trigger] accounts[i]).code@, "30"@) || has_prefix(accounts[i].code@, "31"@))),
        forall|i: int| 0 <= i < accounts.len() ==> (revenue.contains(i as usize)
            <==> (has_prefix((#[trigger] accounts[i]).code@, "70"@) || has_prefix(accounts[i].code@, "71"@))),
        forall|i: int| 0 <= i < accounts.len() ==> !(inventory.contains(i as usize) && #[trigger] revenue.contains(i as usize)),
{
    reveal_strlit("30");
    reveal_strlit("31");
    reveal_strlit("70");
    reveal_strlit("71");
    assert forall|i: int| 0 <= i < accounts.len() implies !(inventory.contains(i as usize) && #[trigger] revenue.contains(i as usize)) by {
        let c = accounts[i].code@;
        if inventory.contains(i as usize) && revenue.contains(i as usize) {
            assert(is_inventory_account(accounts[i]) && is_revenue_account(accounts[i]));
            assert(c.take(2) == "30"@ || c.take(2) == "31"@);
            assert(c.take(2) == "70"@ || c.take(2) == "71"@);
            assert(c.take(2)[0] == c[0]);
        }
    }
}

// ---------------------------------------------------------------------------
// The product form
// ---------------------------------------------------------------------------

/// The text fields of the product form (the price, a float, stays with the
/// caller).
#[derive(Debug, Clone)]
pub struct ProductForm {
    pub code: String,
    pub name: String,
    pub description: String,
    pub product_type: String,
    pub measure_unit: String,
    pub tax_code: String,
    pub inventory_account_id: String,
    pub revenue_account_id: String,
}

/// The text of an optional id, or nothing.
pub open spec fn id_text(id: Option<i64>) -> Seq<char> {
    match id {
        Some(v) => int_text(v as int),
        None => Seq::empty(),
    }
}

fn opt_id_to_string(id: Option<i64>) -> (r: String)
    ensures
        r@ == id_text(id),
{
    match id {
        Some(v) => int_to_string(v),
        None => String::new(),
    }
}

/// The form for a new product: goods ("30"), pieces ("C62"), 20% VAT.
pub fn new_product_form() -> (f: ProductForm)
    ensures
        f.code@.len() == 0 && f.name@.len() == 0 && f.description@.len() == 0,
        f.product_type@ == "30"@,
        f.measure_unit@ == "C62"@,
        f.tax_code@ == "20"@,
        f.inventory_account_id@.len() == 0 && f.revenue_account_id@.len() == 0,
{
    ProductForm {
        code: String::new(),
        name: String::new(),
        description: String::new(),
        product_type: owned("30"),
        measure_unit: owned("C62"),
        tax_code: owned("20"),
        inventory_account_id: String::new(),
        revenue_account_id: String::new(),
    }
}

pub open spec fn text_or_spec(o: Option<String>, d: Seq<char>) -> Seq<char> {
    match o {
        Some(v) => v@,
        None => d,
    }
}

/// The form filled from a product for editing; missing values fall back to
/// the defaults of a new product, a missing description to "".
pub fn product_form_for(p: &ProductRow) -> (f: ProductForm)
    ensures
        f.code@ == p.code@,
        f.name@ == p.name@,
        f.description@ == text_or_spec(p.description, Seq::empty()),
        f.product_type@ == text_or_spec(p.product_type, "30"@),
        f.measure_unit@ == text_or_spec(p.measure_unit, "C62"@),
        f.tax_code@ == text_or_spec(p.tax_code, "20"@),
        f.inventory_account_id@ == id_text(p.inventory_account_id),
        f.revenue_account_id@ == id_text(p.revenue_account_id),
{
    proof {
        reveal_strlit("");
    }
    ProductForm {
        code: owned(p.code.as_str()),
        name: owned(p.name.as_str()),
        description: text_or(&p.description, ""),
        product_type: text_or(&p.product_type, "30"),
        measure_unit: text_or(&p.measure_unit, "C62"),
        tax_code: text_or(&p.tax_code, "20"),
        inventory_account_id: opt_id_to_string(p.inventory_account_id),
        revenue_account_id: opt_id_to_string(p.revenue_account_id),
    }
}

/// The form is refused when the code or the name is empty.
pub fn validate_product_form(form: &ProductForm) -> (r: Result<(), &'static str>)
    ensures
        r.is_ok() == (form.code@.len() > 0 && form.name@.len() > 0),
        r matches Err(m) ==> m@ == "Кодът и името са задължителни"@,
{
    if form.code.as_str().is_empty() || form.name.as_str().is_empty() {
        Err("Кодът и името са задължителни")
    } else {
        Ok(())
    }
}

/// An account id chosen in the form (`parse().ok()`; empty means none).
pub fn form_account_id(text: &str) -> (r: Option<i64>)
    ensures
        r == parsed_i64(text@),
{
    parse_i64(text)
}

/// Where a product is saved: `{base}/products/{id}` for an edit (sent with
/// PUT), `{base}/products` for a new one (sent with POST).
pub fn product_save_url(base: &str, editing_id: Option<i64>) -> (r: String)
    ensures
        r@ == (match editing_id {
            Some(id) => base@ + "/products/"@ + int_text(id as int),
            None => base@ + "/products"@,
        }),
{
    match editing_id {
        Some(id) => {
            let head = concat(base, "/products/");
            let tail = int_to_string(id);
            concat(head.as_str(), tail.as_str())
        },
        None => concat(base, "/products"),
    }
}

/// The message shown after a product is saved.
pub fn product_saved_message(is_edit: bool) -> (r: &'static str)
    ensures
        r@ == (if is_edit { "Продуктът е редактиран успешно"@ } else { "Продуктът е създаден успешно"@ }),
{
    if is_edit { "Продуктът е редактиран успешно" } else { "Продуктът е създаден успешно" }
}

/// The message after a product is deleted: the answer reports success or
/// not, or the request failed.
pub fn product_delete_notice(reply: Outcome) -> (r: Notice)
    ensures
        match reply {
            Outcome::Answered { success, message } => if success {
                r matches Notice::Success(m) && m@ == "Продуктът е изтрит успешно"@
            } else {
                r matches Notice::Error(m) && m@ == "Грешка при изтриване"@
            },
            Outcome::Failed(e) => r matches Notice::Error(m) && m@ == failure_text(e@),
        },
{
    match reply {
        Outcome::Answered { success, message } => {
            if success {
                Notice::Success(owned("Продуктът е изтрит успешно"))
            } else {
                Notice::Error(owned("Грешка при изтриване"))
            }
        },
        Outcome::Failed(e) => Notice::Error(failure_message(e.as_str())),
    }
}

/// What a product's save sends (its price, a float, is added by the
/// caller): the form's text fields, the chosen accounts read as ids (none
/// where not a number), and the product as active.
#[derive(Debug, Clone)]
pub struct ProductRequest {
    pub code: String,
    pub name: String,
    pub description: String,
    pub product_type: String,
    pub measure_unit: String,
    pub tax_code: String,
    pub inventory_account_id: Option<i64>,
    pub revenue_account_id: Option<i64>,
    pub is_active: bool,
}

/// The request of a save, or the form's error when the code or the name is
/// empty (then nothing is sent).
pub fn product_request(form: &ProductForm) -> (r: Result<ProductRequest, &'static str>)
    ensures
        match r {
            Ok(req) => {
                &&& form.code@.len() > 0 && form.name@.len() > 0
                &&& req.code@ == form.code@ && req.name@ == form.name@
                &&& req.description@ == form.description@
                &&& req.product_type@ == form.product_type@
                &&& req.measure_unit@ == form.measure_unit@
                &&& req.tax_code@ == form.tax_code@
                &&& req.inventory_account_id == parsed_i64(form.inventory_account_id@)
                &&& req.revenue_account_id == parsed_i64(form.revenue_account_id@)
                &&& req.is_active
            },
            Err(m) => !(form.code@.len() > 0 && form.name@.len() > 0) && m@ == "Кодът и името са задължителни"@,
        },
{
    match validate_product_form(form) {
        Err(m) => Err(m),
        Ok(()) => Ok(ProductRequest {
            code: owned(form.code.as_str()),
            name: owned(form.name.as_str()),
            description: owned(form.description.as_str()),
            product_type: owned(form.product_type.as_str()),
            measure_unit: owned(form.measure_unit.as_str()),
            tax_code: owned(form.tax_code.as_str()),
            inventory_account_id: form_account_id(form.inventory_account_id.as_str()),
            revenue_account_id: form_account_id(form.revenue_account_id.as_str()),
            is_active: true,
        }),
    }
}

} // verus!
