//! The roles page: role and permission labels, and a role's permissions
//! grouped by category.

use vstd::prelude::*;
use crate::text::{str_eq, owned, before_first, before_sep, text_less, lemma_text_less_transitive, lemma_text_less_irreflexive, text_or};

verus! {

/// A role with its permissions, as the server lists it.
#[derive(Debug, Clone, Default)]
pub struct Role {
    pub id: i64,
    pub name: String,
    pub description: Option<String>,
    pub permissions: Option<String>,
    pub permissions_list: Vec<String>,
    pub user_count: i64,
    pub is_super_admin: bool,
}

/// The label shown for a role name.
pub open spec fn role_label(role: Seq<char>) -> Seq<char> {
    if role == "super_admin"@ { "Супер Администратор"@ }
    else if role == "admin"@ { "Администратор"@ }
    else if role == "accountant"@ { "Счетоводител"@ }
    else if role == "viewer"@ { "Наблюдател"@ }
    else { "Друга"@ }
}

/// The colour shown for a role name.
pub open spec fn role_color(role: Seq<char>) -> Seq<char> {
    if role == "super_admin"@ { "#e74c3c"@ }
    else if role == "admin"@ { "#f39c12"@ }
    else if role == "accountant"@ { "#3498db"@ }
    else if role == "viewer"@ { "#95a5a6"@ }
    else { "#7f8c8d"@ }
}

/// The label shown for a permission; unknown permissions are shown as they are.
pub open spec fn permission_label(permission: Seq<char>) -> Seq<char> {
    if permission == "*"@ { "Всички права"@ }
    else if permission == "admin:read"@ { "Админ: Четене"@ }
    else if permission == "admin:create"@ { "Админ: Създаване"@ }
    else if permission == "admin:update"@ { "Админ: Редактиране"@ }
    else if permission == "admin:delete"@ { "Админ: Изтриване"@ }
    else if permission == "accounting:read"@ { "Счетоводство: Четене"@ }
    else if permission == "accounting:write"@ { "Счетоводство: Писане"@ }
    else if permission == "accounting:post"@ { "Счетоводство: Осчетоводяване"@ }
    else if permission == "document:read"@ { "Документи: Четене"@ }
    else if permission == "document:upload"@ { "Документи: Качване"@ }
    else if permission == "document:process"@ { "Документи: Обработка"@ }
    else if permission == "report:read"@ { "Справки: Четене"@ }
    else if permission == "report:export"@ { "Справки: Експорт"@ }
    else if permission == "invoice:read"@ { "Фактури: Четене"@ }
    else if permission == "invoice:create"@ { "Фактури: Създаване"@ }
    else if permission == "invoice:update"@ { "Фактури: Редактиране"@ }
    else if permission == "invoice:delete"@ { "Фактури: Изтриване"@ }
    else if permission == "invoice:send"@ { "Фактури: Изпращане"@ }
    else if permission == "payment:read"@ { "Плащания: Четене"@ }
    else if permission == "payment:create"@ { "Плащания: Създаване"@ }
    else if permission == "payment:update"@ { "Плащания: Редактиране"@ }
    else if permission == "payment:delete"@ { "Плащания: Изтриване"@ }
    else if permission == "vat:read"@ { "ДДС: Четене"@ }
    else if permission == "vat:create"@ { "ДДС: Създаване"@ }
    else if permission == "vat:submit"@ { "ДДС: Подаване"@ }
    else if permission == "settings:read"@ { "Настройки: Четене"@ }
    else if permission == "settings:update"@ { "Настройки: Промяна"@ }
    else if permission == "user:read"@ { "Потребители: Четене"@ }
    else if permission == "user:create"@ { "Потребители: Създаване"@ }
    else if permission == "user:update"@ { "Потребители: Редактиране"@ }
    else if permission == "user:delete"@ { "Потребители: Изтриване"@ }
    else if permission == "company:read"@ { "Фирми: Четене"@ }
    else if permission == "company:create"@ { "Фирми: Създаване"@ }
    else if permission == "company:update"@ { "Фирми: Редактиране"@ }
    else if permission == "company:delete"@ { "Фирми: Изтриване"@ }
    else if permission == "role:read"@ { "Роли: Четене"@ }
    else if permission == "role:create"@ { "Роли: Създаване"@ }
    else if permission == "role:update"@ { "Роли: Редактиране"@ }
    else if permission == "role:delete"@ { "Роли: Изтриване"@ }
    else { permission }
}

/// The label shown for a permission category.
pub open spec fn category_label(category: Seq<char>) -> Seq<char> {
    if category == "system"@ { "Системни"@ }
    else if category == "admin"@ { "Администрация"@ }
    else if category == "accounting"@ { "Счетоводство"@ }
    else if category == "document"@ { "Документи"@ }
    else if category == "report"@ { "Справки"@ }
    else if category == "invoice"@ { "Фактури"@ }
    else if category == "payment"@ { "Плащания"@ }
    else if category == "vat"@ { "ДДС"@ }
    else if category == "settings"@ { "Настройки"@ }
    else if category == "user"@ { "Потребители"@ }
    else if category == "company"@ { "Фирми"@ }
    else if category == "role"@ { "Роли"@ }
    else { "Други"@ }
}

/// The category of a permission: "system" for "*", else the part before
/// the first ':' when it names a known category, else "other".
pub open spec fn permission_category(permission: Seq<char>) -> Seq<char> {
    if permission == "*"@ { "system"@ } else {
        let head = before_sep(permission, ':');
        if head == "admin"@ { "admin"@ }
        else if head == "accounting"@ { "accounting"@ }
        else if head == "document"@ { "document"@ }
        else if head == "report"@ { "report"@ }
        else if head == "invoice"@ { "invoice"@ }
        else if head == "payment"@ { "payment"@ }
        else if head == "vat"@ { "vat"@ }
        else if head == "settings"@ { "settings"@ }
        else if head == "user"@ { "user"@ }
        else if head == "company"@ { "company"@ }
        else if head == "role"@ { "role"@ }
        else { "other"@ }
    }
}

/// Law: each known role has a label of its own: no other role, known or
/// not, is shown with the label of a super administrator, administrator,
/// accountant or viewer.
pub proof fn lemma_role_labels(t1: Seq<char>, t2: Seq<char>)
    requires
        t1 != t2,
        seq!["super_admin"@, "admin"@, "accountant"@, "viewer"@].contains(t1),
    ensures
        role_label(t1) != role_label(t2),
{
    reveal_strlit("super_admin");
    reveal_strlit("admin");
    reveal_strlit("accountant");
    reveal_strlit("viewer");
    reveal_strlit("Супер Администратор");
    reveal_strlit("Администратор");
    reveal_strlit("Счетоводител");
    reveal_strlit("Наблюдател");
    reveal_strlit("Друга");
    let w = choose|q: int| 0 <= q < 4 && seq!["super_admin"@, "admin"@, "accountant"@, "viewer"@][q] == t1;
    assert(seq!["super_admin"@, "admin"@, "accountant"@, "viewer"@][w] == t1);
    assert(role_label(t1).len() != role_label(t2).len());
}

pub fn get_role_label(role: &str) -> (r: &'static str)
    ensures
        r@ == role_label(role@),
{
    if str_eq(role, "super_admin") { "Супер Администратор" }
    else if str_eq(role, "admin") { "Администратор" }
    else if str_eq(role, "accountant") { "Счетоводител" }
    else if str_eq(role, "viewer") { "Наблюдател" }
    else { "Друга" }
}

pub fn get_role_color(role: &str) -> (r: &'static str)
    ensures
        r@ == role_color(role@),
{
    if str_eq(role, "super_admin") { "#e74c3c" }
    else if str_eq(role, "admin") { "#f39c12" }
    else if str_eq(role, "accountant") { "#3498db" }
    else if str_eq(role, "viewer") { "#95a5a6" }
    else { "#7f8c8d" }
}

pub fn get_permission_label(permission: &str) -> (r: String)
    ensures
        r@ == permission_label(permission@),
{
    if str_eq(permission, "*") { owned("Всички права") }
    else if str_eq(permission, "admin:read") { owned("Админ: Четене") }
    else if str_eq(permission, "admin:create") { owned("Админ: Създаване") }
    else if str_eq(permission, "admin:update") { owned("Админ: Редактиране") }
    else if str_eq(permission, "admin:delete") { owned("Админ: Изтриване") }
    else if str_eq(permission, "accounting:read") { owned("Счетоводство: Четене") }
    else if str_eq(permission, "accounting:write") { owned("Счетоводство: Писане") }
    else if str_eq(permission, "accounting:post") { owned("Счетоводство: Осчетоводяване") }
    else if str_eq(permission, "document:read") { owned("Документи: Четене") }
    else if str_eq(permission, "document:upload") { owned("Документи: Качване") }
    else if str_eq(permission, "document:process") { owned("Документи: Обработка") }
    else if str_eq(permission, "report:read") { owned("Справки: Четене") }
    else if str_eq(permission, "report:export") { owned("Справки: Експорт") }
    else if str_eq(permission, "invoice:read") { owned("Фактури: Четене") }
    else if str_eq(permission, "invoice:create") { owned("Фактури: Създаване") }
    else if str_eq(permission, "invoice:update") { owned("Фактури: Редактиране") }
    else if str_eq(permission, "invoice:delete") { owned("Фактури: Изтриване") }
    else if str_eq(permission, "invoice:send") { owned("Фактури: Изпращане") }
    else if str_eq(permission, "payment:read") { owned("Плащания: Четене") }
    else if str_eq(permission, "payment:create") { owned("Плащания: Създаване") }
    else if str_eq(permission, "payment:update") { owned("Плащания: Редактиране") }
    else if str_eq(permission, "payment:delete") { owned("Плащания: Изтриване") }
    else if str_eq(permission, "vat:read") { owned("ДДС: Четене") }
    else if str_eq(permission, "vat:create") { owned("ДДС: Създаване") }
    else if str_eq(permission, "vat:submit") { owned("ДДС: Подаване") }
    else if str_eq(permission, "settings:read") { owned("Настройки: Четене") }
    else if str_eq(permission, "settings:update") { owned("Настройки: Промяна") }
    else if str_eq(permission, "user:read") { owned("Потребители: Четене") }
    else if str_eq(permission, "user:create") { owned("Потребители: Създаване") }
    else if str_eq(permission, "user:update") { owned("Потребители: Редактиране") }
    else if str_eq(permission, "user:delete") { owned("Потребители: Изтриване") }
    else if str_eq(permission, "company:read") { owned("Фирми: Четене") }
    else if str_eq(permission, "company:create") { owned("Фирми: Създаване") }
    else if str_eq(permission, "company:update") { owned("Фирми: Редактиране") }
    else if str_eq(permission, "company:delete") { owned("Фирми: Изтриване") }
    else if str_eq(permission, "role:read") { owned("Роли: Четене") }
    else if str_eq(permission, "role:create") { owned("Роли: Създаване") }
    else if str_eq(permission, "role:update") { owned("Роли: Редактиране") }
    else if str_eq(permission, "role:delete") { owned("Роли: Изтриване") }
    else { owned(permission) }
}

pub fn get_category_label(category: &str) -> (r: &'static str)
    ensures
        r@ == category_label(category@),
{
    if str_eq(category, "system") { "Системни" }
    else if str_eq(category, "admin") { "Администрация" }
    else if str_eq(category, "accounting") { "Счетоводство" }
    else if str_eq(category, "document") { "Документи" }
    else if str_eq(category, "report") { "Справки" }
    else if str_eq(category, "invoice") { "Фактури" }
    else if str_eq(category, "payment") { "Плащания" }
    else if str_eq(category, "vat") { "ДДС" }
    else if str_eq(category, "settings") { "Настройки" }
    else if str_eq(category, "user") { "Потребители" }
    else if str_eq(category, "company") { "Фирми" }
    else if str_eq(category, "role") { "Роли" }
    else { "Други" }
}

pub fn get_permission_category(permission: &str) -> (r: &'static str)
    ensures
        r@ == permission_category(permission@),
{
    if str_eq(permission, "*") {
        return "system";
    }
    let head = before_first(permission, ':');
    let h = head.as_str();
    if str_eq(h, "admin") { "admin" }
    else if str_eq(h, "accounting") { "accounting" }
    else if str_eq(h, "document") { "document" }
    else if str_eq(h, "report") { "report" }
    else if str_eq(h, "invoice") { "invoice" }
    else if str_eq(h, "payment") { "payment" }
    else if str_eq(h, "vat") { "vat" }
    else if str_eq(h, "settings") { "settings" }
    else if str_eq(h, "user") { "user" }
    else if str_eq(h, "company") { "company" }
    else if str_eq(h, "role") { "role" }
    else { "other" }
}

// ---------------------------------------------------------------------------
// Permissions grouped by category
// ---------------------------------------------------------------------------

/// Every category a permission can have, in ascending order of name.
pub open spec fn category_order() -> Seq<Seq<char>> {
    seq![
        "accounting"@,
        "admin"@,
        "company"@,
        "document"@,
        "invoice"@,
        "other"@,
        "payment"@,
        "report"@,
        "role"@,
        "settings"@,
        "system"@,
        "user"@,
        "vat"@
    ]
}

/// Law: the categories are listed in strictly ascending order of name.
pub proof fn lemma_category_order_sorted()
    ensures
        forall|a: int, b: int| 0 <= a < b < category_order().len() ==> text_less(#[trigger] category_order()[a], #[trigger] category_order()[b]),
{
    reveal_strlit("accounting");
    reveal_strlit("admin");
    reveal_strlit("company");
    reveal_strlit("document");
    reveal_strlit("invoice");
    reveal_strlit("other");
    reveal_strlit("payment");
    reveal_strlit("report");
    reveal_strlit("role");
    reveal_strlit("settings");
    reveal_strlit("system");
    reveal_strlit("user");
    reveal_strlit("vat");
    reveal_with_fuel(text_less, 4);
    assert forall|k: int| 0 <= k < category_order().len() - 1 implies text_less(#[trigger] category_order()[k], category_order()[k + 1]) by {
        if k == 0 { assert(text_less("accounting"@, "admin"@)); }
        if k == 1 { assert(text_less("admin"@, "company"@)); }
        if k == 2 { assert(text_less("company"@, "document"@)); }
        if k == 3 { assert(text_less("document"@, "invoice"@)); }
        if k == 4 { assert(text_less("invoice"@, "other"@)); }
        if k == 5 { assert(text_less("other"@, "payment"@)); }
        if k == 6 { assert(text_less("payment"@, "report"@)); }
        if k == 7 { assert(text_less("report"@, "role"@)); }
        if k == 8 { assert(text_less("role"@, "settings"@)); }
        if k == 9 { assert(text_less("settings"@, "system"@)); }
        if k == 10 { assert(text_less("system"@, "user"@)); }
        if k == 11 { assert(text_less("user"@, "vat"@)); }
    }
    assert forall|a: int, b: int| 0 <= a < b < category_order().len() implies text_less(#[trigger] category_order()[a], #[trigger] category_order()[b]) by {
        lemma_order_chain(a, b);
    }
}

proof fn lemma_order_chain(a: int, b: int)
    requires
        0 <= a < b < category_order().len(),
        forall|k: int| 0 <= k < category_order().len() - 1 ==> text_less(#[trigger] category_order()[k], category_order()[k + 1]),
    ensures
        text_less(category_order()[a], category_order()[b]),
    decreases b - a,
{
    if b > a + 1 {
        lemma_order_chain(a, b - 1);
        lemma_text_less_transitive(category_order()[a], category_order()[b - 1], category_order()[b]);
    }
}

/// Every category of a permission is listed in `category_order`.
pub proof fn lemma_category_listed(permission: Seq<char>)
    ensures
        category_order().contains(permission_category(permission)),
{
    let c = permission_category(permission);
    if c == "accounting"@ { assert(category_order()[0] == c); }
    if c == "admin"@ { assert(category_order()[1] == c); }
    if c == "company"@ { assert(category_order()[2] == c); }
    if c == "document"@ { assert(category_order()[3] == c); }
    if c == "invoice"@ { assert(category_order()[4] == c); }
    if c == "other"@ { assert(category_order()[5] == c); }
    if c == "payment"@ { assert(category_order()[6] == c); }
    if c == "report"@ { assert(category_order()[7] == c); }
    if c == "role"@ { assert(category_order()[8] == c); }
    if c == "settings"@ { assert(category_order()[9] == c); }
    if c == "system"@ { assert(category_order()[10] == c); }
    if c == "user"@ { assert(category_order()[11] == c); }
    if c == "vat"@ { assert(category_order()[12] == c); }
}

/// Law: a permission's category is the text before its first ':' whenever
/// that text is one of the listed categories other than "system" (admin,
/// accounting, document, report, invoice, payment, vat, settings, user,
/// company, role, other); "*" alone is "system"; any other permission is
/// "other".
pub proof fn lemma_permission_category(permission: Seq<char>)
    ensures
        permission == "*"@ ==> permission_category(permission) == "system"@,
        permission != "*"@ && category_order().contains(before_sep(permission, ':'))
            && before_sep(permission, ':') != "system"@
            ==> permission_category(permission) == before_sep(permission, ':'),
        permission != "*"@ && !(category_order().contains(before_sep(permission, ':'))
            && before_sep(permission, ':') != "system"@)
            ==> permission_category(permission) == "other"@,
{
    reveal_strlit("accounting");
    reveal_strlit("admin");
    reveal_strlit("company");
    reveal_strlit("document");
    reveal_strlit("invoice");
    reveal_strlit("other");
    reveal_strlit("payment");
    reveal_strlit("report");
    reveal_strlit("role");
    reveal_strlit("settings");
    reveal_strlit("system");
    reveal_strlit("user");
    reveal_strlit("vat");
    reveal_strlit("*");
    let head = before_sep(permission, ':');
    if permission != "*"@ && category_order().contains(head) {
        let q = choose|q: int| 0 <= q < category_order().len() && category_order()[q] == head;
        assert(category_order()[q] == head);
        if head == "system"@ {
            assert(head[0] != "report"@[0]);
            assert(head[0] != "settings"@[0] || head[1] != "settings"@[1]);
            assert(head[0] != "vat"@[0]);
            assert(head[0] != "document"@[0]);
            assert(head[0] != "invoice"@[0]);
            assert(head[0] != "payment"@[0]);
            assert(head[0] != "accounting"@[0]);
            assert(head[0] != "admin"@[0]);
            assert(head[0] != "user"@[0]);
            assert(head[0] != "company"@[0]);
            assert(head[0] != "role"@[0]);
        }
    } else if permission != "*"@ {
        if head == "accounting"@ { assert(category_order()[0] == head); }
        if head == "admin"@ { assert(category_order()[1] == head); }
        if head == "company"@ { assert(category_order()[2] == head); }
        if head == "document"@ { assert(category_order()[3] == head); }
        if head == "invoice"@ { assert(category_order()[4] == head); }
        if head == "other"@ { assert(category_order()[5] == head); }
        if head == "payment"@ { assert(category_order()[6] == head); }
        if head == "report"@ { assert(category_order()[7] == head); }
        if head == "role"@ { assert(category_order()[8] == head); }
        if head == "settings"@ { assert(category_order()[9] == head); }
        if head == "system"@ { assert(category_order()[10] == head); }
        if head == "user"@ { assert(category_order()[11] == head); }
        if head == "vat"@ { assert(category_order()[12] == head); }
    }
}

/// Law: the listed categories have labels that differ from one another, so
/// no two groups of a role's permissions are shown under the same heading.
pub proof fn lemma_category_labels_distinct(a: int, b: int)
    requires
        0 <= a < category_order().len(),
        0 <= b < category_order().len(),
        a != b,
    ensures
        category_label(category_order()[a]) != category_label(category_order()[b]),
{
    reveal_strlit("accounting");
    reveal_strlit("admin");
    reveal_strlit("company");
    reveal_strlit("document");
    reveal_strlit("invoice");
    reveal_strlit("other");
    reveal_strlit("payment");
    reveal_strlit("report");
    reveal_strlit("role");
    reveal_strlit("settings");
    reveal_strlit("system");
    reveal_strlit("user");
    reveal_strlit("vat");
    reveal_strlit("Системни");
    reveal_strlit("Администрация");
    reveal_strlit("Счетоводство");
    reveal_strlit("Документи");
    reveal_strlit("Справки");
    reveal_strlit("Фактури");
    reveal_strlit("Плащания");
    reveal_strlit("ДДС");
    reveal_strlit("Настройки");
    reveal_strlit("Потребители");
    reveal_strlit("Фирми");
    reveal_strlit("Роли");
    reveal_strlit("Други");
    lemma_category_order_sorted();
    if a < b {
        lemma_text_less_irreflexive(category_order()[a]);
    }
    let la = category_label(category_order()[a]);
    let lb = category_label(category_order()[b]);
    if la.len() == lb.len() {
        assert(la[0] != lb[0]);
    }
}

/// The permissions of one category: the category and the indices of its
/// permissions, in their order.
#[derive(Debug)]
pub struct PermissionGroup {
    pub category: &'static str,
    pub members: Vec<usize>,
}

/// The categories of a list of groups.
pub open spec fn group_categories(gs: Seq<PermissionGroup>) -> Seq<Seq<char>> {
    gs.map_values(|g: PermissionGroup| g.category@)
}

/// A role's permissions grouped by category, the categories in ascending
/// order of name and each group's permissions in their order in the list.
pub fn group_permissions(permissions: &Vec<String>) -> (gs: Vec<PermissionGroup>)
    ensures
        forall|a: int, b: int| 0 <= a < b < gs.len() ==> text_less(#[trigger] gs@[a].category@, #[trigger] gs@[b].category@),
        forall|g: int| 0 <= g < gs.len() ==> (#[trigger] gs@[g]).members@.len() > 0,
        forall|g: int, a: int, b: int| 0 <= g < gs.len() && 0 <= a < b < gs@[g].members@.len() ==> #[trigger] gs@[g].members@[a] < #[trigger] gs@[g].members@[b],
        forall|g: int, m: int| 0 <= g < gs.len() && 0 <= m < gs@[g].members@.len() ==>
            #[trigger] gs@[g].members@[m] < permissions.len() && permission_category(permissions@[gs@[g].members@[m] as int]@) == gs@[g].category@,
        forall|g: int, i: int| 0 <= g < gs.len() && 0 <= i < permissions.len() && permission_category(#[trigger] permissions@[i]@) == gs@[g].category@
            ==> #[trigger] gs@[g].members@.contains(i as usize),
        forall|i: int| 0 <= i < permissions.len() ==> group_categories(gs@).contains(permission_category(#[trigger] permissions@[i]@)),
{
    let order: [&'static str; 13] = ["accounting", "admin", "company", "document", "invoice", "other", "payment", "report", "role", "settings", "system", "user", "vat"];
    assert(order@.map_values(|c: &str| c@) =~= category_order());
    let mut cats: Vec<&'static str> = Vec::new();
    let mut i: usize = 0;
    while i < permissions.len()
        invariant
            i <= permissions.len(),
            cats.len() == i,
            forall|j: int| 0 <= j < i ==> (#[trigger] cats@[j])@ == permission_category(permissions@[j]@),
        decreases permissions.len() - i,
    {
        let c = get_permission_category(permissions[i].as_str());
        cats.push(c);
        i = i + 1;
    }
    let mut gs: Vec<PermissionGroup> = Vec::new();
    let ghost ranks: Seq<int> = Seq::empty();
    assert(category_order().take(0) =~= Seq::<Seq<char>>::empty());
    let mut k: usize = 0;
    while k < 13
        invariant
            order@.map_values(|c: &str| c@) == category_order(),
            cats.len() == permissions.len(),
            forall|j: int| 0 <= j < permissions.len() ==> (#[trigger] cats@[j])@ == permission_category(permissions@[j]@),
            k <= 13,
            ranks.len() == gs.len(),
            forall|a: int| 0 <= a < gs.len() ==> 0 <= #[trigger] ranks[a] < k,
            forall|a: int, b: int| 0 <= a < b < gs.len() ==> #[trigger] ranks[a] < #[trigger] ranks[b],
            forall|a: int| 0 <= a < gs.len() ==> (#[trigger] gs@[a]).category@ == category_order()[ranks[a]],
            forall|g: int| 0 <= g < gs.len() ==> (#[trigger] gs@[g]).members@.len() > 0,
            forall|g: int, a: int, b: int| 0 <= g < gs.len() && 0 <= a < b < gs@[g].members@.len() ==> #[trigger] gs@[g].members@[a] < #[trigger] gs@[g].members@[b],
            forall|g: int, m: int| 0 <= g < gs.len() && 0 <= m < gs@[g].members@.len() ==>
                #[trigger] gs@[g].members@[m] < permissions.len() && permission_category(permissions@[gs@[g].members@[m] as int]@) == gs@[g].category@,
            forall|g: int, i: int| 0 <= g < gs.len() && 0 <= i < permissions.len() && permission_category(#[trigger] permissions@[i]@) == gs@[g].category@
                ==> #[trigger] gs@[g].members@.contains(i as usize),
            forall|i: int| 0 <= i < permissions.len() && category_order().take(k as int).contains(permission_category(#[trigger] permissions@[i]@))
                ==> group_categories(gs@).contains(permission_category(permissions@[i]@)),
        decreases 13 - k,
    {
        let cat = order[k];
        assert(cat@ == category_order()[k as int]);
        let mut members: Vec<usize> = Vec::new();
        let mut j: usize = 0;
        while j < cats.len()
            invariant
                cats.len() == permissions.len(),
                forall|t: int| 0 <= t < permissions.len() ==> (#[trigger] cats@[t])@ == permission_category(permissions@[t]@),
                j <= cats.len(),
                forall|a: int, b: int| 0 <= a < b < members.len() ==> members@[a] < members@[b],
                forall|m: int| 0 <= m < members.len() ==> (#[trigger] members@[m]) < j && permission_category(permissions@[members@[m] as int]@) == cat@,
                forall|t: int| 0 <= t < j && permission_category(#[trigger] permissions@[t]@) == cat@ ==> members@.contains(t as usize),
            decreases cats.len() - j,
        {
            if str_eq(cats[j], cat) {
                let ghost before = members@;
                members.push(j);
                assert forall|t: int| 0 <= t < j + 1 && permission_category(#[trigger] permissions@[t]@) == cat@ implies members@.contains(t as usize) by {
                    if t < j {
                        let a = choose|a: int| 0 <= a < before.len() && before[a] == t as usize;
                        assert(members@[a] == before[a]);
                    } else {
                        assert(members@[before.len() as int] == j);
                    }
                }
            }
            j = j + 1;
        }
        let ghost old_gs = gs@;
        if members.len() > 0 {
            gs.push(PermissionGroup { category: cat, members });
            proof {
                ranks = ranks.push(k as int);
            }
        }
        assert forall|i: int| 0 <= i < permissions.len() && category_order().take(k + 1).contains(permission_category(#[trigger] permissions@[i]@))
            implies group_categories(gs@).contains(permission_category(permissions@[i]@)) by {
            let pc = permission_category(permissions@[i]@);
            let q = choose|q: int| 0 <= q < k + 1 && #[trigger] category_order().take(k + 1)[q] == pc;
            assert(category_order()[q] == pc);
            if q < k {
                assert(category_order().take(k as int)[q] == pc);
                assert(category_order().take(k as int).contains(pc));
                assert(group_categories(old_gs).contains(pc));
                let a = choose|a: int| 0 <= a < old_gs.len() && group_categories(old_gs)[a] == pc;
                assert(gs@[a] == old_gs[a]);
                assert(group_categories(gs@)[a] == pc);
            } else {
                assert(members@.contains(i as usize));
                assert(gs@[old_gs.len() as int].category@ == pc);
                assert(group_categories(gs@)[old_gs.len() as int] == pc);
            }
        }
        k = k + 1;
    }
    proof {
        lemma_category_order_sorted();
    }
    assert forall|i: int| 0 <= i < permissions.len() implies group_categories(gs@).contains(permission_category(#[trigger] permissions@[i]@)) by {
        lemma_category_listed(permissions@[i]@);
        assert(category_order().take(13) =~= category_order());
    }
    gs
}

/// What the groups of a list of permissions are: categories in ascending
/// order of name, none empty, each holding the indices of exactly the
/// permissions of its category in ascending order, and every permission's
/// category among them.
pub open spec fn grouped_by_category(permissions: Seq<String>, gs: Seq<PermissionGroup>) -> bool {
    &&& forall|a: int, b: int| 0 <= a < b < gs.len() ==> text_less(#[trigger] gs[a].category@, #[trigger] gs[b].category@)
    &&& forall|g: int| 0 <= g < gs.len() ==> (#[trigger] gs[g]).members@.len() > 0
    &&& forall|g: int, a: int, b: int| 0 <= g < gs.len() && 0 <= a < b < gs[g].members@.len() ==> #[trigger] gs[g].members@[a] < #[trigger] gs[g].members@[b]
    &&& forall|g: int, m: int| 0 <= g < gs.len() && 0 <= m < gs[g].members@.len() ==>
            #[trigger] gs[g].members@[m] < permissions.len() && permission_category(permissions[gs[g].members@[m] as int]@) == gs[g].category@
    &&& forall|g: int, i: int| 0 <= g < gs.len() && 0 <= i < permissions.len() && permission_category(#[trigger] permissions[i]@) == gs[g].category@
            ==> #[trigger] gs[g].members@.contains(i as usize)
    &&& forall|i: int| 0 <= i < permissions.len() ==> group_categories(gs).contains(permission_category(#[trigger] permissions[i]@))
}

/// The description shown for a role, or "Без описание" where it has none.
pub fn role_description(role: &Role) -> (r: String)
    ensures
        r@ == (match role.description {
            Some(d) => d@,
            None => "Без описание"@,
        }),
{
    text_or(&role.description, "Без описание")
}

/// The permissions panel of a role: none for a super administrator, whose
/// panel only says that the role reaches every function ("Пълни права"),
/// else its permissions grouped by category.
pub fn role_permission_groups(role: &Role) -> (r: Option<Vec<PermissionGroup>>)
    ensures
        r is None <==> role.is_super_admin,
        r matches Some(gs) ==> grouped_by_category(role.permissions_list@, gs@),
{
    if role.is_super_admin {
        None
    } else {
        let gs = group_permissions(&role.permissions_list);
        assert(grouped_by_category(role.permissions_list@, gs@));
        Some(gs)
    }
}

} // verus!
