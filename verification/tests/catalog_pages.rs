use ledger_ui::roles::{role_description, role_permission_groups, Role};
use ledger_ui::opening_balances::{shows_counterpart_select, shows_product_fields};
use ledger_ui::answers::{Notice, Outcome};
use ledger_ui::opening_balances::{balance_delete_notice, balance_save_notice, balances_load_error};
use ledger_ui::products::product_delete_notice;
use ledger_ui::opening_balances::{accounts_for_balance_type, balance_analyticity, balance_description, balance_form_for,
    balance_save_url, balance_saved_message, check_balance_account, filter_balances, get_balance_type_color,
    get_balance_type_label, new_balance_form, today_date_text, AccountInfo, BalanceRow, CounterpartInfo, ProductInfo};
use ledger_ui::opening_balances::Account as BalanceAccount;
use ledger_ui::products::{filter_products, form_account_id, form_accounts, get_product_type_color, get_product_type_name,
    get_product_types, get_unit_name, get_units_of_measure, new_product_form, product_form_for, product_save_url,
    product_saved_message, product_type_counts, validate_product_form, Account, ProductRow};
use ledger_ui::roles::{get_category_label, get_permission_category, get_permission_label, get_role_color, get_role_label,
    group_permissions};

fn product(id: i64, code: &str, name: &str, kind: Option<&str>) -> ProductRow {
    ProductRow {
        id,
        code: code.to_string(),
        name: name.to_string(),
        product_type: kind.map(|k| k.to_string()),
        ..Default::default()
    }
}

#[test]
fn product_type_table_and_names() {
    let types = get_product_types();
    assert_eq!(types.len(), 6);
    assert_eq!(types[0], ("10", "Материали"));
    assert_eq!(types[5], ("S", "Услуги"));
    assert_eq!(get_product_type_name("30"), "Стоки");
    assert_eq!(get_product_type_name("50"), "Инвестиция");
    assert_eq!(get_product_type_name("99"), "Друго");
    assert_eq!(get_product_type_color("S"), "#1abc9c");
    assert_eq!(get_product_type_color(""), "#7f8c8d");
}

#[test]
fn every_listed_type_but_investment_has_its_listed_name() {
    for (code, name) in get_product_types() {
        if code != "50" {
            assert_eq!(get_product_type_name(code), name);
        }
    }
}

#[test]
fn every_listed_unit_has_its_listed_name() {
    let units = get_units_of_measure();
    assert_eq!(units.len(), 15);
    for (code, name) in units {
        assert_eq!(get_unit_name(code), name);
    }
    assert_eq!(get_unit_name("XYZ"), "бр.");
}

#[test]
fn filtering_products_by_type_and_query() {
    let products = vec![
        product(1, "M-1", "Брашно", Some("10")),
        product(2, "G-1", "Захар", Some("30")),
        product(3, "S-1", "Монтаж", None),
    ];
    assert_eq!(filter_products(&products, "", ""), vec![0, 1, 2]);
    assert_eq!(filter_products(&products, "", "30"), vec![1]);
    assert_eq!(filter_products(&products, "БРАШ", ""), vec![0]);
    assert_eq!(filter_products(&products, "s-1", ""), vec![2]);
    assert!(filter_products(&products, "захар", "10").is_empty());
}

#[test]
fn counting_products_by_type() {
    let products = vec![
        product(1, "a", "a", Some("30")),
        product(2, "b", "b", None),
        product(3, "c", "c", Some("10")),
        product(4, "d", "d", Some("30")),
    ];
    let counts: Vec<(String, usize)> = product_type_counts(&products).into_iter().map(|kc| (kc.key, kc.count)).collect();
    assert_eq!(counts, vec![("30".to_string(), 2), ("10".to_string(), 1)]);
}

#[test]
fn accounts_offered_in_the_product_form() {
    let accounts = vec![
        Account { id: 1, code: "302".to_string(), name: "Материали".to_string() },
        Account { id: 2, code: "702".to_string(), name: "Приходи".to_string() },
        Account { id: 3, code: "311".to_string(), name: "x".to_string() },
        Account { id: 4, code: "401".to_string(), name: "y".to_string() },
    ];
    assert_eq!(form_accounts(&accounts, false), vec![0, 2]);
    assert_eq!(form_accounts(&accounts, true), vec![1]);
}

#[test]
fn product_form_defaults_and_checks() {
    let f = new_product_form();
    assert_eq!((f.product_type.as_str(), f.measure_unit.as_str(), f.tax_code.as_str()), ("30", "C62", "20"));
    assert_eq!(validate_product_form(&f), Err("Кодът и името са задължителни"));
    let mut p = product(7, "P-7", "Стол", None);
    p.inventory_account_id = Some(15);
    let g = product_form_for(&p);
    assert_eq!(g.code, "P-7");
    assert_eq!(g.product_type, "30");
    assert_eq!(g.inventory_account_id, "15");
    assert_eq!(g.revenue_account_id, "");
    assert_eq!(validate_product_form(&g), Ok(()));
    assert_eq!(form_account_id(""), None);
    assert_eq!(form_account_id("12"), Some(12));
}

#[test]
fn product_save_addresses_and_messages() {
    assert_eq!(product_save_url("/api/companies/1", Some(9)), "/api/companies/1/products/9");
    assert_eq!(product_save_url("/api/companies/1", None), "/api/companies/1/products");
    assert_eq!(product_saved_message(true), "Продуктът е редактиран успешно");
    assert_eq!(product_saved_message(false), "Продуктът е създаден успешно");
}

#[test]
fn role_and_permission_labels() {
    assert_eq!(get_role_label("accountant"), "Счетоводител");
    assert_eq!(get_role_label("guest"), "Друга");
    assert_eq!(get_role_color("super_admin"), "#e74c3c");
    assert_eq!(get_role_color("guest"), "#7f8c8d");
    assert_eq!(get_permission_label("*"), "Всички права");
    assert_eq!(get_permission_label("vat:submit"), "ДДС: Подаване");
    assert_eq!(get_permission_label("custom:thing"), "custom:thing");
    assert_eq!(get_permission_category("*"), "system");
    assert_eq!(get_permission_category("invoice:send"), "invoice");
    assert_eq!(get_permission_category("nothing"), "other");
    assert_eq!(get_permission_category("x:y"), "other");
    assert_eq!(get_category_label("vat"), "ДДС");
    assert_eq!(get_category_label("zzz"), "Други");
}

#[test]
fn permissions_grouped_by_category_in_name_order() {
    let perms: Vec<String> = ["vat:read", "accounting:read", "*", "vat:submit", "weird", "accounting:post"]
        .iter().map(|s| s.to_string()).collect();
    let groups = group_permissions(&perms);
    let shown: Vec<(&str, Vec<usize>)> = groups.into_iter().map(|g| (g.category, g.members)).collect();
    assert_eq!(shown, vec![
        ("accounting", vec![1, 5]),
        ("other", vec![4]),
        ("system", vec![2]),
        ("vat", vec![0, 3]),
    ]);
}

fn balance(id: i64, kind: &str, account_id: i64) -> BalanceRow {
    BalanceRow {
        id,
        date: "2024-01-01".to_string(),
        balance_type: kind.to_string(),
        account: AccountInfo { id: account_id, code: "401".to_string(), name: "Доставчици".to_string() },
        ..Default::default()
    }
}

#[test]
fn balance_types_as_shown() {
    assert_eq!(get_balance_type_label("counterpart"), "Контрагент");
    assert_eq!(get_balance_type_label("x"), "Друг");
    assert_eq!(get_balance_type_color("product"), "#27ae60");
    assert_eq!(get_balance_type_color("x"), "#7f8c8d");
}

#[test]
fn today_as_iso_date() {
    assert_eq!(today_date_text(2024, 0, 5), "2024-01-05");
    assert_eq!(today_date_text(2024, 11, 31), "2024-12-31");
}

#[test]
fn filtering_balances() {
    let rows = vec![balance(1, "account", 10), balance(2, "counterpart", 11), balance(3, "account", 11)];
    assert_eq!(filter_balances(&rows, "", ""), vec![0, 1, 2]);
    assert_eq!(filter_balances(&rows, "account", ""), vec![0, 2]);
    assert_eq!(filter_balances(&rows, "", "11"), vec![1, 2]);
    assert!(filter_balances(&rows, "", "abc").is_empty());
}

#[test]
fn balance_analytics_and_form() {
    let mut b = balance(5, "counterpart", 10);
    assert_eq!(balance_analyticity(&b), "-");
    b.counterpart = Some(CounterpartInfo { id: 3, name: "Фирма".to_string(), vat: None });
    assert_eq!(balance_analyticity(&b), "Фирма");
    let mut p = balance(6, "product", 10);
    p.product = Some(ProductInfo { id: 4, code: "P1".to_string(), name: "Стол".to_string(), unit: None });
    assert_eq!(balance_analyticity(&p), "P1 - Стол");
    assert_eq!(balance_analyticity(&balance(7, "account", 1)), "-");
    let f = balance_form_for(&b);
    assert_eq!(f.editing_id, Some(5));
    assert_eq!(f.counterpart_id, Some(3));
    assert_eq!(f.description, "");
    assert_eq!(balance_description(&f), None);
    let n = new_balance_form("2024-02-02");
    assert_eq!(n.balance_type, "account");
    assert_eq!(n.date, "2024-02-02");
}

#[test]
fn balance_checks_addresses_and_messages() {
    assert_eq!(check_balance_account(None), Err("Изберете сметка"));
    assert_eq!(check_balance_account(Some(4)), Ok(4));
    assert_eq!(balance_save_url(Some(12)), "/api/companies/1/opening_balances/12");
    assert_eq!(balance_save_url(None), "/api/companies/1/opening_balances");
    assert_eq!(balance_saved_message(true), "Салдото е обновено");
    assert_eq!(balance_saved_message(false), "Салдото е добавено");
}

#[test]
fn accounts_offered_per_balance_type() {
    let accounts = vec![
        BalanceAccount { id: 1, code: "401".to_string(), name: "a".to_string(), account_type: String::new() },
        BalanceAccount { id: 2, code: "302".to_string(), name: "b".to_string(), account_type: String::new() },
        BalanceAccount { id: 3, code: "411".to_string(), name: "c".to_string(), account_type: String::new() },
    ];
    assert_eq!(accounts_for_balance_type(&accounts, "account"), vec![0, 1, 2]);
    assert_eq!(accounts_for_balance_type(&accounts, "counterpart"), vec![0, 2]);
    assert_eq!(accounts_for_balance_type(&accounts, "product"), vec![1]);
}

#[test]
fn notices_after_saving_and_deleting() {
    let yes = || Outcome::Answered { success: true, message: None };
    let no = || Outcome::Answered { success: false, message: Some("ignored".to_string()) };
    assert!(matches!(product_delete_notice(yes()), Notice::Success(ref m) if m == "Продуктът е изтрит успешно"));
    assert!(matches!(product_delete_notice(no()), Notice::Error(ref m) if m == "Грешка при изтриване"));
    assert!(matches!(product_delete_notice(Outcome::Failed("x".to_string())), Notice::Error(ref m) if m == "Грешка: x"));
    assert!(matches!(balance_save_notice(true, yes()), Notice::Success(ref m) if m == "Салдото е обновено"));
    assert!(matches!(balance_save_notice(false, yes()), Notice::Success(ref m) if m == "Салдото е добавено"));
    assert!(matches!(balance_save_notice(false, no()), Notice::Error(ref m) if m == "Грешка при запис"));
    assert!(matches!(balance_delete_notice(Ok(())), Notice::Success(ref m) if m == "Салдото е изтрито"));
    assert!(matches!(balance_delete_notice(Err("x".to_string())), Notice::Error(ref m) if m == "Грешка при изтриване: x"));
    assert_eq!(balances_load_error("x"), "Грешка при зареждане на салда: x");
}

#[test]
fn product_and_balance_requests() {
    use_requests();
}

fn use_requests() {
    let mut f = new_product_form();
    assert_eq!(ledger_ui::products::product_request(&f).err(), Some("Кодът и името са задължителни"));
    f.code = "P1".to_string();
    f.name = "Стол".to_string();
    f.inventory_account_id = "15".to_string();
    f.revenue_account_id = "x".to_string();
    let r = ledger_ui::products::product_request(&f).expect("a request");
    assert_eq!((r.code.as_str(), r.product_type.as_str(), r.tax_code.as_str()), ("P1", "30", "20"));
    assert_eq!((r.inventory_account_id, r.revenue_account_id), (Some(15), None));
    assert!(r.is_active);
    let mut b = new_balance_form("2024-01-01");
    assert_eq!(ledger_ui::opening_balances::balance_request(&b).err(), Some("Изберете сметка"));
    b.account_id = Some(7);
    b.counterpart_id = Some(3);
    let req = ledger_ui::opening_balances::balance_request(&b).expect("a request");
    assert_eq!((req.account_id, req.counterpart_id, req.product_id), (7, Some(3), None));
    assert_eq!(req.description, None);
    assert_eq!(req.date, "2024-01-01");
    b.description = "Начално".to_string();
    assert_eq!(ledger_ui::opening_balances::balance_request(&b).expect("a request").description, Some("Начално".to_string()));
}

#[test]
fn roles_panel_for_a_super_admin_and_for_others() {
    let admin = Role {
        id: 1,
        name: "super_admin".to_string(),
        permissions_list: vec!["*".to_string()],
        is_super_admin: true,
        ..Default::default()
    };
    assert!(role_permission_groups(&admin).is_none());
    assert_eq!(role_description(&admin), "Без описание");
    let viewer = Role {
        id: 2,
        name: "viewer".to_string(),
        description: Some("Само четене".to_string()),
        permissions_list: vec!["report:read".to_string(), "accounting:read".to_string(), "report:export".to_string()],
        ..Default::default()
    };
    assert_eq!(role_description(&viewer), "Само четене");
    let gs = role_permission_groups(&viewer).unwrap();
    assert_eq!(gs.len(), 2);
    assert_eq!((gs[0].category, gs[0].members.clone()), ("accounting", vec![1]));
    assert_eq!((gs[1].category, gs[1].members.clone()), ("report", vec![0, 2]));
}

#[test]
fn balance_form_selects_by_type() {
    assert!(shows_counterpart_select("counterpart"));
    assert!(!shows_product_fields("counterpart"));
    assert!(shows_product_fields("product"));
    assert!(!shows_counterpart_select("product"));
    assert!(!shows_counterpart_select("account") && !shows_product_fields("account"));
}
