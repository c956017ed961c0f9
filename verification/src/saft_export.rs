//! The SAF-T export page: the period's choices, the company it is made for,
//! the endpoints of the validation and of the export, the file's name, and how a
//! validation's result and a failure read.

use vstd::prelude::*;
use crate::text::{owned, concat, text_or};
use crate::numtext::{int_text, int_to_string, padded_text, padded_to_string, parse_i32, parsed_i32};

verus! {

/// A company that the user can work for.
#[derive(Debug, Clone, Default)]
pub struct CompanyInfo {
    pub id: i64,
    pub name: String,
    pub eik: Option<String>,
}

/// The figures of a validation.
#[derive(Debug, Clone, Default)]
pub struct ValidationSummary {
    pub company: String,
    pub period: String,
    pub journal_entries: i32,
    pub invoices: i32,
    pub counterparts: i32,
    pub accounts: i32,
}

/// The result of a validation of the period's data.
#[derive(Debug, Clone, Default)]
pub struct ValidationResult {
    pub valid: bool,
    pub errors: Vec<String>,
    pub warnings: Vec<String>,
    pub summary: ValidationSummary,
}

/// The choices as the page opens: January 2026, a monthly report.
pub fn initial_period() -> (r: (i32, i32, &'static str))
    ensures
        r.0 == 2026 && r.1 == 1 && r.2@ == "monthly"@,
{
    (2026, 1, "monthly")
}

/// The years offered, 2020 to 2030.
pub fn years() -> (r: Vec<i32>)
    ensures
        r@.len() == 11,
        forall|k: int| 0 <= k < 11 ==> #[trigger] r@[k] == 2020 + k,
{
    let mut r: Vec<i32> = Vec::new();
    let mut y: i32 = 2020;
    while y <= 2030
        invariant
            2020 <= y <= 2031,
            r@.len() == y - 2020,
            forall|k: int| 0 <= k < r@.len() ==> #[trigger] r@[k] == 2020 + k,
        decreases 2031 - y,
    {
        r.push(y);
        y = y + 1;
    }
    r
}

pub open spec fn month_name_bg(m: int) -> Seq<char> {
    if m == 1 { "Януари"@ } else if m == 2 { "Февруари"@ } else if m == 3 { "Март"@ }
    else if m == 4 { "Април"@ } else if m == 5 { "Май"@ } else if m == 6 { "Юни"@ }
    else if m == 7 { "Юли"@ } else if m == 8 { "Август"@ } else if m == 9 { "Септември"@ }
    else if m == 10 { "Октомври"@ } else if m == 11 { "Ноември"@ } else { "Декември"@ }
}

pub open spec fn month_name_en(m: int) -> Seq<char> {
    if m == 1 { "January"@ } else if m == 2 { "February"@ } else if m == 3 { "March"@ }
    else if m == 4 { "April"@ } else if m == 5 { "May"@ } else if m == 6 { "June"@ }
    else if m == 7 { "July"@ } else if m == 8 { "August"@ } else if m == 9 { "September"@ }
    else if m == 10 { "October"@ } else if m == 11 { "November"@ } else { "December"@ }
}

/// The name of month `m` (1 to 12) in Bulgarian, or in English for any other
/// language.
pub fn month_label(m: i32, bulgarian: bool) -> (r: &'static str)
    requires
        1 <= m <= 12,
    ensures
        r@ == (if bulgarian { month_name_bg(m as int) } else { month_name_en(m as int) }),
{
    if bulgarian {
        if m == 1 { "Януари" } else if m == 2 { "Февруари" } else if m == 3 { "Март" }
        else if m == 4 { "Април" } else if m == 5 { "Май" } else if m == 6 { "Юни" }
        else if m == 7 { "Юли" } else if m == 8 { "Август" } else if m == 9 { "Септември" }
        else if m == 10 { "Октомври" } else if m == 11 { "Ноември" } else { "Декември" }
    } else {
        if m == 1 { "January" } else if m == 2 { "February" } else if m == 3 { "March" }
        else if m == 4 { "April" } else if m == 5 { "May" } else if m == 6 { "June" }
        else if m == 7 { "July" } else if m == 8 { "August" } else if m == 9 { "September" }
        else if m == 10 { "October" } else if m == 11 { "November" } else { "December" }
    }
}

/// The year chosen in the list: the number it reads as, else 2025.
pub fn chosen_year(value: &str) -> (r: i32)
    ensures
        r == (match parsed_i32(value@) { Some(y) => y, None => 2025 }),
{
    match parse_i32(value) {
        Some(y) => y,
        None => 2025,
    }
}

/// The month chosen in the list: the number it reads as, else 1.
pub fn chosen_month(value: &str) -> (r: i32)
    ensures
        r == (match parsed_i32(value@) { Some(m) => m, None => 1 }),
{
    match parse_i32(value) {
        Some(m) => m,
        None => 1,
    }
}

/// The company a validation or an export is for: the one selected. Without one
/// (or with id 0) the page asks for a company to be chosen first, by this
/// message key.
pub fn company_for_export(selected: Option<i64>) -> (r: Result<i64, &'static str>)
    ensures
        match selected {
            Some(id) if id != 0 => r == Ok::<i64, &'static str>(id),
            _ => r matches Err(k) && k@ == "saft.selectCompanyFirst"@,
        },
{
    let id = match selected {
        Some(c) => c,
        None => 0,
    };
    if id == 0 {
        Err("saft.selectCompanyFirst")
    } else {
        Ok(id)
    }
}

/// The EIK of the first company with `id` in the list, or empty where it is
/// not there or has none.
pub fn company_eik(companies: &Vec<CompanyInfo>, id: i64) -> (r: String)
    ensures
        exists_company(companies@, id) ==> r@ == (match companies@[first_company(companies@, id)].eik {
            Some(e) => e@,
            None => Seq::empty(),
        }),
        !exists_company(companies@, id) ==> r@.len() == 0,
{
    proof {
        reveal_strlit("");
    }
    let mut i: usize = 0;
    while i < companies.len()
        invariant
            i <= companies.len(),
            forall|j: int| 0 <= j < i ==> (#[trigger] companies@[j]).id != id,
        decreases companies.len() - i,
    {
        if companies[i].id == id {
            proof {
                reveal_strlit("");
                assert(exists_company(companies@, id));
                lemma_first_company(companies@, id, i as int);
            }
            return text_or(&companies[i].eik, "");
        }
        i = i + 1;
    }
    String::new()
}

/// Whether a company with `id` is in the list.
pub open spec fn exists_company(cs: Seq<CompanyInfo>, id: i64) -> bool {
    exists|j: int| 0 <= j < cs.len() && (#[trigger] cs[j]).id == id
}

/// The position of the first company with `id` (meaningful where there is
/// one).
pub open spec fn first_company(cs: Seq<CompanyInfo>, id: i64) -> int
    decreases cs.len(),
{
    if cs.len() == 0 {
        0
    } else if cs[0].id == id {
        0
    } else {
        1 + first_company(cs.drop_first(), id)
    }
}

pub proof fn lemma_first_company(cs: Seq<CompanyInfo>, id: i64, i: int)
    requires
        0 <= i < cs.len(),
        cs[i].id == id,
        forall|j: int| 0 <= j < i ==> (#[trigger] cs[j]).id != id,
    ensures
        first_company(cs, id) == i,
    decreases i,
{
    if i > 0 {
        assert forall|j: int| 0 <= j < i - 1 implies (#[trigger] cs.drop_first()[j]).id != id by {
            assert(cs.drop_first()[j] == cs[j + 1]);
        }
        lemma_first_company(cs.drop_first(), id, i - 1);
    }
}

/// How the chosen company is shown: `{name} ({eik})`, its name alone where it
/// has no EIK, or a request to choose one.
pub fn selected_company_label(company: &Option<CompanyInfo>) -> (r: String)
    ensures
        r@ == (match company {
            Some(c) => match c.eik {
                Some(e) => c.name@ + " ("@ + e@ + ")"@,
                None => c.name@,
            },
            None => "Моля изберете фирма от менюто"@,
        }),
{
    match company {
        Some(c) => match &c.eik {
            Some(e) => {
                let mut r = concat(c.name.as_str(), " (");
                r.append(e.as_str());
                r.append(")");
                r
            },
            None => owned(c.name.as_str()),
        },
        None => owned("Моля изберете фирма от менюто"),
    }
}

pub open spec fn period_query(company_id: i64, year: i32, month: i32) -> Seq<char> {
    "company_id="@ + int_text(company_id as int) + "&year="@ + int_text(year as int) + "&month="@ + int_text(month as int)
}

fn period_query_text(company_id: i64, year: i32, month: i32) -> (r: String)
    ensures
        r@ == period_query(company_id, year, month),
{
    let mut r = concat("company_id=", int_to_string(company_id).as_str());
    r.append("&year=");
    r.append(int_to_string(year as i64).as_str());
    r.append("&month=");
    r.append(int_to_string(month as i64).as_str());
    r
}

/// Where the period's data is validated (GET, with the session's bearer token).
pub fn validate_url(api_base: &str, company_id: i64, year: i32, month: i32) -> (r: String)
    ensures
        r@ == api_base@ + "/api/saft/validate?"@ + period_query(company_id, year, month),
{
    let mut r = concat(api_base, "/api/saft/validate?");
    r.append(period_query_text(company_id, year, month).as_str());
    r
}

/// Where the file is exported from (GET, with the session's bearer token).
pub fn export_url(api_base: &str, company_id: i64, year: i32, month: i32, report_type: &str) -> (r: String)
    ensures
        r@ == api_base@ + "/api/saft/export?"@ + period_query(company_id, year, month) + "&report_type="@ + report_type@,
{
    let mut r = concat(api_base, "/api/saft/export?");
    r.append(period_query_text(company_id, year, month).as_str());
    r.append("&report_type=");
    r.append(report_type);
    r
}

/// The name the exported file is saved under:
/// `SAFT_{eik}_{year}{month:02}_{report type}.xml`.
pub fn saft_filename(eik: &str, year: i32, month: i32, report_type: &str) -> (r: String)
    ensures
        r@ == "SAFT_"@ + eik@ + "_"@ + int_text(year as int) + padded_text(month as int, 2) + "_"@ + report_type@ + ".xml"@,
{
    let mut r = concat("SAFT_", eik);
    r.append("_");
    r.append(int_to_string(year as i64).as_str());
    r.append(padded_to_string(month as i64, 2).as_str());
    r.append("_");
    r.append(report_type);
    r.append(".xml");
    r
}

/// The header value that carries the session's token.
pub fn bearer(token: &str) -> (r: String)
    ensures
        r@ == "Bearer "@ + token@,
{
    concat("Bearer ", token)
}

/// How a validation or an export failed.
#[derive(Debug, Clone)]
pub enum Failure {
    /// The server answered with this status.
    Status(u16),
    /// The request, or reading its body, failed with this error.
    Request(String),
    /// The validation's answer could not be read.
    Unreadable(String),
}

pub fn validation_failure(f: &Failure) -> (r: String)
    ensures
        r@ == (match *f {
            Failure::Status(s) => "Validation failed: HTTP "@ + int_text(s as int),
            Failure::Request(e) => "Validation failed: "@ + e@,
            Failure::Unreadable(e) => "Failed to parse response: "@ + e@,
        }),
{
    match f {
        Failure::Status(s) => concat("Validation failed: HTTP ", int_to_string(*s as i64).as_str()),
        Failure::Request(e) => concat("Validation failed: ", e.as_str()),
        Failure::Unreadable(e) => concat("Failed to parse response: ", e.as_str()),
    }
}

pub fn export_failure(f: &Failure) -> (r: String)
    ensures
        r@ == (match *f {
            Failure::Status(s) => "Export failed: HTTP "@ + int_text(s as int),
            Failure::Request(e) => "Export failed: "@ + e@,
            Failure::Unreadable(e) => "Export failed: "@ + e@,
        }),
{
    match f {
        Failure::Status(s) => concat("Export failed: HTTP ", int_to_string(*s as i64).as_str()),
        Failure::Request(e) => concat("Export failed: ", e.as_str()),
        Failure::Unreadable(e) => concat("Export failed: ", e.as_str()),
    }
}

/// A validation passes cleanly when it is valid with neither errors nor warnings.
pub fn all_clear(result: &ValidationResult) -> (r: bool)
    ensures
        r == (result.valid && result.errors@.len() == 0 && result.warnings@.len() == 0),
{
    result.valid && result.errors.len() == 0 && result.warnings.len() == 0
}

} // verus!
