//! SAF-T account correspondences: which debit/credit accounts belong to which
//! movement type, in three categories (stock, fixed assets, cash). The
//! category's endpoints and labels, how a loaded record's type is read, the
//! list of movement types, the grouping of the table and the edit form.

use vstd::prelude::*;
pub use crate::text::opt_view;
use crate::text::{owned, concat, text_or, non_empty};
use crate::answers::Notice;
use crate::numtext::{int_text, int_to_string, parse_i32, parsed_i32};
use crate::groups::{views, is_permutation, stably_sorted_by_text, stable_order_by_text,
    is_partition_by_key, group_by_key_ranked};

verus! {

/// A correspondence of accounts for one movement type.
#[derive(Debug, Clone, Default)]
pub struct MovementMapping {
    pub id: i64,
    pub type_code: String,
    pub movement_type_name: String,
    pub debit_account: String,
    pub credit_account: String,
    pub debit_analytical: Option<String>,
    pub credit_analytical: Option<String>,
    pub description: Option<String>,
    pub is_active: bool,
}

/// A movement type that a correspondence can be made for.
#[derive(Debug, Clone, Default)]
pub struct MovementType {
    pub code: String,
    pub name: String,
}

#[derive(Debug, Clone, Copy, PartialEq, Eq, Structural)]
pub enum MappingCategory {
    Stock,
    Asset,
    Cash,
}

pub open spec fn category_api_path(c: MappingCategory) -> Seq<char> {
    match c {
        MappingCategory::Stock => "movement_mappings"@,
        MappingCategory::Asset => "asset_mappings"@,
        MappingCategory::Cash => "cash_mappings"@,
    }
}

pub open spec fn category_type_field(c: MappingCategory) -> Seq<char> {
    match c {
        MappingCategory::Stock => "movement_type_code"@,
        MappingCategory::Asset => "asset_transaction_type"@,
        MappingCategory::Cash => "cash_movement_type"@,
    }
}

pub open spec fn category_title(c: MappingCategory) -> Seq<char> {
    match c {
        MappingCategory::Stock => "Материални запаси"@,
        MappingCategory::Asset => "Дълготрайни активи"@,
        MappingCategory::Cash => "Парични средства"@,
    }
}

pub open spec fn category_types_key(c: MappingCategory) -> Seq<char> {
    match c {
        MappingCategory::Stock => "movement_types"@,
        MappingCategory::Asset => "transaction_types"@,
        MappingCategory::Cash => "movement_types"@,
    }
}

pub open spec fn category_type_label(c: MappingCategory) -> Seq<char> {
    match c {
        MappingCategory::Stock => "Тип движение"@,
        MappingCategory::Asset => "Тип транзакция"@,
        MappingCategory::Cash => "Тип плащане"@,
    }
}

impl MappingCategory {
    /// The path segment of the category's endpoints.
    pub fn api_path(&self) -> (r: &'static str)
        ensures
            r@ == category_api_path(*self),
    {
        match self {
            MappingCategory::Stock => "movement_mappings",
            MappingCategory::Asset => "asset_mappings",
            MappingCategory::Cash => "cash_mappings",
        }
    }

    /// The field that carries the movement type when a correspondence is sent.
    pub fn type_field(&self) -> (r: &'static str)
        ensures
            r@ == category_type_field(*self),
    {
        match self {
            MappingCategory::Stock => "movement_type_code",
            MappingCategory::Asset => "asset_transaction_type",
            MappingCategory::Cash => "cash_movement_type",
        }
    }

    pub fn title(&self) -> (r: &'static str)
        ensures
            r@ == category_title(*self),
    {
        match self {
            MappingCategory::Stock => "Материални запаси",
            MappingCategory::Asset => "Дълготрайни активи",
            MappingCategory::Cash => "Парични средства",
        }
    }

    /// The key under which a load answers with the category's movement types.
    pub fn types_key(&self) -> (r: &'static str)
        ensures
            r@ == category_types_key(*self),
    {
        match self {
            MappingCategory::Stock => "movement_types",
            MappingCategory::Asset => "transaction_types",
            MappingCategory::Cash => "movement_types",
        }
    }

    /// The label of the movement type's field in the form.
    pub fn type_label(&self) -> (r: &'static str)
        ensures
            r@ == category_type_label(*self),
    {
        match self {
            MappingCategory::Stock => "Тип движение",
            MappingCategory::Asset => "Тип транзакция",
            MappingCategory::Cash => "Тип плащане",
        }
    }
}

// ---------------------------------------------------------------------------
// Reading a loaded record
// ---------------------------------------------------------------------------

/// `base`, unless one of `fields` is given: then the last one given.
pub open spec fn last_given(base: Seq<char>, fields: Seq<Option<String>>) -> Seq<char>
    decreases fields.len(),
{
    if fields.len() == 0 {
        base
    } else {
        match fields.last() {
            Some(s) => s@,
            None => last_given(base, fields.drop_last()),
        }
    }
}

fn last_given_text(base: &str, fields: &Vec<Option<String>>) -> (r: String)
    ensures
        r@ == last_given(base@, fields@),
{
    let mut r = owned(base);
    let mut i: usize = 0;
    while i < fields.len()
        invariant
            i <= fields.len(),
            r@ == last_given(base@, fields@.take(i as int)),
        decreases fields.len() - i,
    {
        assert(fields@.take(i + 1).drop_last() =~= fields@.take(i as int));
        match &fields[i] {
            Some(s) => {
                r = owned(s.as_str());
            },
            None => {},
        }
        i = i + 1;
    }
    assert(fields@.take(fields.len() as int) =~= fields@);
    r
}

/// A loaded record with its movement type read from whichever field the
/// category's endpoint uses: each of `code_fields` (the values of
/// `movement_type_code`, `asset_transaction_type` and `cash_movement_type`,
/// in that order) that is present overrides the code, the later ones winning,
/// and each of `name_fields` (`movement_type_name`, `transaction_type_name`)
/// the name. Nothing else changes.
pub fn normalize_mapping(m: MovementMapping, code_fields: &Vec<Option<String>>, name_fields: &Vec<Option<String>>) -> (r: MovementMapping)
    ensures
        r.type_code@ == last_given(m.type_code@, code_fields@),
        r.movement_type_name@ == last_given(m.movement_type_name@, name_fields@),
        r.id == m.id,
        r.debit_account == m.debit_account,
        r.credit_account == m.credit_account,
        r.debit_analytical == m.debit_analytical,
        r.credit_analytical == m.credit_analytical,
        r.description == m.description,
        r.is_active == m.is_active,
{
    let code = last_given_text(m.type_code.as_str(), code_fields);
    let name = last_given_text(m.movement_type_name.as_str(), name_fields);
    MovementMapping { type_code: code, movement_type_name: name, ..m }
}

// ---------------------------------------------------------------------------
// Movement types
// ---------------------------------------------------------------------------

/// The movement types of a load, from its code-to-name entries, sorted by
/// code (a stable sort): entry `r.1[k]` becomes type `k`, its name the entry's
/// text or empty where the entry is not text.
pub fn movement_types_from(codes: &Vec<String>, names: &Vec<Option<String>>) -> (r: (Vec<MovementType>, Vec<usize>))
    requires
        codes.len() == names.len(),
    ensures
        is_permutation(r.1@, codes.len() as nat),
        stably_sorted_by_text(views(codes@), r.1@),
        r.0.len() == codes.len(),
        forall|k: int| 0 <= k < r.0.len() ==> (#[trigger] r.0@[k]).code@ == codes@[r.1@[k] as int]@
            && r.0@[k].name@ == (match names@[r.1@[k] as int] { Some(n) => n@, None => Seq::<char>::empty() }),
{
    proof {
        reveal_strlit("");
    }
    let order = stable_order_by_text(codes);
    let mut types: Vec<MovementType> = Vec::new();
    let mut k: usize = 0;
    while k < order.len()
        invariant
            codes.len() == names.len(),
            is_permutation(order@, codes.len() as nat),
            ""@ == Seq::<char>::empty(),
            k <= order.len(),
            types.len() == k,
            forall|q: int| 0 <= q < k ==> (#[trigger] types@[q]).code@ == codes@[order@[q] as int]@
                && types@[q].name@ == (match names@[order@[q] as int] { Some(n) => n@, None => Seq::<char>::empty() }),
        decreases order.len() - k,
    {
        let src = order[k];
        let t = MovementType { code: owned(codes[src].as_str()), name: text_or(&names[src], "") };
        types.push(t);
        k = k + 1;
    }
    (types, order)
}

/// How an option of the movement type's field reads: `{code} - {name}`.
pub fn movement_type_option_label(t: &MovementType) -> (r: String)
    ensures
        r@ == t.code@ + " - "@ + t.name@,
{
    let mut r = concat(t.code.as_str(), " - ");
    r.append(t.name.as_str());
    r
}

// ---------------------------------------------------------------------------
// The table, grouped by movement type
// ---------------------------------------------------------------------------

/// Where a group of movement type `code` stands: by the number the code reads
/// as, 999 where it does not read as an `i32`.
pub open spec fn code_rank(code: Seq<char>) -> int {
    match parsed_i32(code) {
        Some(n) => n as int,
        None => 999,
    }
}

pub open spec fn mapping_codes(ms: Seq<MovementMapping>) -> Seq<Seq<char>> {
    ms.map_values(|m: MovementMapping| m.type_code@)
}

/// The correspondences of one movement type, by their index in the list.
pub struct MappingGroup {
    pub code: String,
    pub movement_type_name: String,
    pub members: Vec<usize>,
}

pub open spec fn group_members(gs: Seq<MappingGroup>) -> Seq<Seq<usize>> {
    gs.map_values(|g: MappingGroup| g.members@)
}

/// The table: the correspondences grouped by movement type (see
/// `is_partition_by_key`; `r.1[i]` is the group of correspondence `i`), each
/// group headed by its code and by the type name of its first correspondence,
/// the groups ordered by `code_rank`, groups of equal rank in the order in
/// which their codes first occur.
pub fn group_mappings(ms: &Vec<MovementMapping>) -> (r: (Vec<MappingGroup>, Vec<usize>))
    ensures
        is_partition_by_key(mapping_codes(ms@), group_members(r.0@), r.1@),
        forall|g: int| 0 <= g < r.0.len() ==> {
            &&& (#[trigger] r.0@[g]).code@ == ms@[r.0@[g].members@[0] as int].type_code@
            &&& r.0@[g].movement_type_name@ == ms@[r.0@[g].members@[0] as int].movement_type_name@
        },
        forall|g: int, h: int| 0 <= g < h < r.0.len() ==>
            code_rank(#[trigger] r.0@[g].code@) < code_rank(#[trigger] r.0@[h].code@)
            || (code_rank(r.0@[g].code@) == code_rank(r.0@[h].code@) && r.0@[g].members@[0] < r.0@[h].members@[0]),
{
    let ghost cv = mapping_codes(ms@);
    let mut codes: Vec<String> = Vec::new();
    let mut ranks: Vec<i64> = Vec::new();
    let mut i: usize = 0;
    while i < ms.len()
        invariant
            cv == mapping_codes(ms@),
            i <= ms.len(),
            codes.len() == i,
            ranks.len() == i,
            forall|q: int| 0 <= q < i ==> (#[trigger] codes@[q])@ == cv[q],
            forall|q: int| 0 <= q < i ==> (#[trigger] ranks@[q]) == code_rank(cv[q]),
        decreases ms.len() - i,
    {
        let code = owned(ms[i].type_code.as_str());
        let rank: i64 = match parse_i32(code.as_str()) {
            Some(n) => n as i64,
            None => 999,
        };
        codes.push(code);
        ranks.push(rank);
        i = i + 1;
    }
    assert(views(codes@) =~= cv);
    let (gs, owner) = group_by_key_ranked(&codes, &ranks);
    let ghost gv = gs@.map_values(|g: Vec<usize>| g@);
    let mut groups: Vec<MappingGroup> = Vec::new();
    let mut k: usize = 0;
    while k < gs.len()
        invariant
            cv == mapping_codes(ms@),
            cv.len() == ms.len(),
            gv == gs@.map_values(|g: Vec<usize>| g@),
            is_partition_by_key(cv, gv, owner@),
            k <= gs.len(),
            groups.len() == k,
            forall|q: int| 0 <= q < k ==> {
                &&& (#[trigger] groups@[q]).members@ == gv[q]
                &&& groups@[q].code@ == ms@[gv[q][0] as int].type_code@
                &&& groups@[q].movement_type_name@ == ms@[gv[q][0] as int].movement_type_name@
            },
        decreases gs.len() - k,
    {
        assert(gv[k as int] == gs@[k as int]@);
        assert(gv[k as int].len() > 0);
        assert(gv[k as int][0] < ms.len());
        let members = gs[k].clone();
        assert(members@ =~= gv[k as int]);
        let first = members[0];
        let g = MappingGroup {
            code: owned(ms[first].type_code.as_str()),
            movement_type_name: owned(ms[first].movement_type_name.as_str()),
            members,
        };
        groups.push(g);
        k = k + 1;
    }
    assert(group_members(groups@) =~= gv);
    assert forall|g: int, h: int| 0 <= g < h < groups.len() implies
        code_rank(#[trigger] groups@[g].code@) < code_rank(#[trigger] groups@[h].code@)
        || (code_rank(groups@[g].code@) == code_rank(groups@[h].code@) && groups@[g].members@[0] < groups@[h].members@[0]) by {
        let a = gv[g][0] as int;
        let b = gv[h][0] as int;
        assert(gs@[g]@ == gv[g] && gs@[h]@ == gv[h]);
        assert(ranks@[a] == code_rank(cv[a]));
        assert(ranks@[b] == code_rank(cv[b]));
    }
    (groups, owner)
}

/// The heading of a group: `{code} - {type name}`.
pub fn group_heading(g: &MappingGroup) -> (r: String)
    ensures
        r@ == g.code@ + " - "@ + g.movement_type_name@,
{
    let mut r = concat(g.code.as_str(), " - ");
    r.append(g.movement_type_name.as_str());
    r
}

// ---------------------------------------------------------------------------
// Endpoints and messages
// ---------------------------------------------------------------------------

/// `/api/companies/1/saft/{path}`: where the category's correspondences are
/// loaded from and new ones are sent (with POST).
pub fn mappings_url(category: MappingCategory) -> (r: String)
    ensures
        r@ == "/api/companies/1/saft/"@ + category_api_path(category),
{
    concat("/api/companies/1/saft/", category.api_path())
}

/// `/api/companies/1/saft/{path}/{id}`: where a correspondence is updated
/// (PUT) or deleted (DELETE).
pub fn mapping_url(category: MappingCategory, id: i64) -> (r: String)
    ensures
        r@ == "/api/companies/1/saft/"@ + category_api_path(category) + "/"@ + int_text(id as int),
{
    let mut r = mappings_url(category);
    r.append("/");
    let t = int_to_string(id);
    r.append(t.as_str());
    r
}

/// `/api/companies/1/saft/{path}/create_defaults`: where the standard
/// correspondences of the category are asked for (with POST).
pub fn defaults_url(category: MappingCategory) -> (r: String)
    ensures
        r@ == "/api/companies/1/saft/"@ + category_api_path(category) + "/create_defaults"@,
{
    let mut r = mappings_url(category);
    r.append("/create_defaults");
    r
}

/// Where the form is saved: an edit goes to the correspondence's own URL (PUT),
/// a new one to the category's (POST).
pub fn mapping_save_url(category: MappingCategory, editing_id: Option<i64>) -> (r: String)
    ensures
        r@ == (match editing_id {
            Some(id) => "/api/companies/1/saft/"@ + category_api_path(category) + "/"@ + int_text(id as int),
            None => "/api/companies/1/saft/"@ + category_api_path(category),
        }),
{
    match editing_id {
        Some(id) => mapping_url(category, id),
        None => mappings_url(category),
    }
}

/// The message of a failed load.
pub fn load_error_message(error: &str) -> (r: String)
    ensures
        r@ == "Грешка при зареждане: "@ + error@,
{
    concat("Грешка при зареждане: ", error)
}

/// The message of a failed save, delete or request for the standard set.
pub fn action_error_message(error: &str) -> (r: String)
    ensures
        r@ == "Грешка: "@ + error@,
{
    concat("Грешка: ", error)
}

/// The standard set can only be asked for while nothing is being saved and
/// the category has no correspondences yet.
pub fn defaults_enabled(saving: bool, mapping_count: usize) -> (r: bool)
    ensures
        r == (!saving && mapping_count == 0),
{
    !saving && mapping_count == 0
}

// ---------------------------------------------------------------------------
// The form
// ---------------------------------------------------------------------------

/// The fields of the correspondence form.
#[derive(Debug, Clone, Default)]
pub struct MappingForm {
    pub editing_id: Option<i64>,
    pub movement_type: String,
    pub debit_account: String,
    pub credit_account: String,
    pub debit_analytical: String,
    pub credit_analytical: String,
    pub description: String,
}

pub open spec fn opt_text(o: Option<String>) -> Seq<char> {
    match o {
        Some(s) => s@,
        None => Seq::empty(),
    }
}

/// The cleared form, for a new correspondence.
pub fn new_mapping_form() -> (f: MappingForm)
    ensures
        f.editing_id.is_none(),
        f.movement_type@.len() == 0,
        f.debit_account@.len() == 0,
        f.credit_account@.len() == 0,
        f.debit_analytical@.len() == 0,
        f.credit_analytical@.len() == 0,
        f.description@.len() == 0,
{
    MappingForm {
        editing_id: None,
        movement_type: String::new(),
        debit_account: String::new(),
        credit_account: String::new(),
        debit_analytical: String::new(),
        credit_analytical: String::new(),
        description: String::new(),
    }
}

/// The form filled from a correspondence for editing; an absent optional
/// field reads as empty.
pub fn mapping_form_for(m: &MovementMapping) -> (f: MappingForm)
    ensures
        f.editing_id == Some(m.id),
        f.movement_type@ == m.type_code@,
        f.debit_account@ == m.debit_account@,
        f.credit_account@ == m.credit_account@,
        f.debit_analytical@ == opt_text(m.debit_analytical),
        f.credit_analytical@ == opt_text(m.credit_analytical),
        f.description@ == opt_text(m.description),
{
    proof {
        reveal_strlit("");
    }
    MappingForm {
        editing_id: Some(m.id),
        movement_type: owned(m.type_code.as_str()),
        debit_account: owned(m.debit_account.as_str()),
        credit_account: owned(m.credit_account.as_str()),
        debit_analytical: text_or(&m.debit_analytical, ""),
        credit_analytical: text_or(&m.credit_analytical, ""),
        description: text_or(&m.description, ""),
    }
}

/// What a save sends: the movement type under the category's field, the
/// accounts, the optional fields only where not empty, and the
/// correspondence as active.
pub struct MappingRequest {
    pub type_field: &'static str,
    pub type_code: String,
    pub debit_account: String,
    pub credit_account: String,
    pub debit_analytical: Option<String>,
    pub credit_analytical: Option<String>,
    pub description: Option<String>,
    pub is_active: bool,
}

pub open spec fn given_text(s: Seq<char>) -> Option<Seq<char>> {
    if s.len() > 0 { Some(s) } else { None }
}

pub fn mapping_request(form: &MappingForm, category: MappingCategory) -> (r: MappingRequest)
    ensures
        r.type_field@ == category_type_field(category),
        r.type_code@ == form.movement_type@,
        r.debit_account@ == form.debit_account@,
        r.credit_account@ == form.credit_account@,
        opt_view(r.debit_analytical) == given_text(form.debit_analytical@),
        opt_view(r.credit_analytical) == given_text(form.credit_analytical@),
        opt_view(r.description) == given_text(form.description@),
        r.is_active,
{
    MappingRequest {
        type_field: category.type_field(),
        type_code: owned(form.movement_type.as_str()),
        debit_account: owned(form.debit_account.as_str()),
        credit_account: owned(form.credit_account.as_str()),
        debit_analytical: non_empty(form.debit_analytical.as_str()),
        credit_analytical: non_empty(form.credit_analytical.as_str()),
        description: non_empty(form.description.as_str()),
        is_active: true,
    }
}

/// The form's heading.
pub fn mapping_form_title(editing_id: Option<i64>) -> (r: &'static str)
    ensures
        r@ == (if editing_id.is_some() { "Редактиране"@ } else { "Нова кореспонденция"@ }),
{
    if editing_id.is_some() { "Редактиране" } else { "Нова кореспонденция" }
}

/// Whether a form is the cleared form of a new correspondence.
pub open spec fn cleared(f: MappingForm) -> bool {
    &&& f.editing_id.is_none()
    &&& f.movement_type@.len() == 0
    &&& f.debit_account@.len() == 0
    &&& f.credit_account@.len() == 0
    &&& f.debit_analytical@.len() == 0
    &&& f.credit_analytical@.len() == 0
    &&& f.description@.len() == 0
}

/// What a save's answer leaves on the page. After a successful save the page
/// says "Запазено", clears the form, closes it and loads the list again (the
/// result is then true); after a failure it says "Грешка: {error}" and keeps
/// the form as it was, open (the result is then false).
pub fn after_mapping_save(result: Result<(), String>, form: &mut MappingForm) -> (r: (Notice, bool))
    ensures
        r.1 == result is Ok,
        result is Ok ==> (r.0 matches Notice::Success(m) && m@ == "Запазено"@) && cleared(*final(form)),
        result matches Err(e) ==> (r.0 matches Notice::Error(m) && m@ == "Грешка: "@ + e@) && *final(form) == *old(form),
{
    match result {
        Ok(_) => {
            *form = new_mapping_form();
            (Notice::Success(owned("Запазено")), true)
        },
        Err(e) => (Notice::Error(action_error_message(e.as_str())), false),
    }
}

/// The notice after deleting a correspondence: "Изтрито" (and the list is
/// loaded again), or "Грешка: {error}".
pub fn after_mapping_delete(result: Result<(), String>) -> (r: Notice)
    ensures
        (match result {
            Ok(_) => r matches Notice::Success(m) && m@ == "Изтрито"@,
            Err(e) => r matches Notice::Error(m) && m@ == "Грешка: "@ + e@,
        }),
{
    match result {
        Ok(_) => Notice::Success(owned("Изтрито")),
        Err(e) => Notice::Error(action_error_message(e.as_str())),
    }
}

/// The notice after asking for the standard set: "Стандартните настройки са
/// създадени" (and the list is loaded again), or "Грешка: {error}".
pub fn after_defaults(result: Result<(), String>) -> (r: Notice)
    ensures
        (match result {
            Ok(_) => r matches Notice::Success(m) && m@ == "Стандартните настройки са създадени"@,
            Err(e) => r matches Notice::Error(m) && m@ == "Грешка: "@ + e@,
        }),
{
    match result {
        Ok(_) => Notice::Success(owned("Стандартните настройки са създадени")),
        Err(e) => Notice::Error(action_error_message(e.as_str())),
    }
}

} // verus!
