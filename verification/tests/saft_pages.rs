use ledger_ui::answers::Notice;
use ledger_ui::saft_movement_mappings::{after_defaults, after_mapping_delete, after_mapping_save};
use ledger_ui::saft_export::{all_clear, bearer, chosen_month, chosen_year, company_eik, company_for_export, export_failure,
    export_url, initial_period, month_label, saft_filename, selected_company_label, validate_url, validation_failure, years,
    CompanyInfo, Failure, ValidationResult};
use ledger_ui::saft_movement_mappings::{action_error_message, defaults_enabled, defaults_url, group_heading, group_mappings,
    load_error_message, mapping_form_for, mapping_form_title, mapping_request, mapping_save_url, mapping_url, mappings_url,
    movement_type_option_label, movement_types_from, new_mapping_form, normalize_mapping, MappingCategory, MovementMapping,
    MovementType};

fn mapping(id: i64, code: &str, name: &str) -> MovementMapping {
    MovementMapping {
        id,
        type_code: code.to_string(),
        movement_type_name: name.to_string(),
        debit_account: "302".to_string(),
        credit_account: "401".to_string(),
        is_active: true,
        ..Default::default()
    }
}

#[test]
fn categories_and_their_endpoints() {
    assert_eq!(MappingCategory::Stock.api_path(), "movement_mappings");
    assert_eq!(MappingCategory::Asset.api_path(), "asset_mappings");
    assert_eq!(MappingCategory::Cash.api_path(), "cash_mappings");
    assert_eq!(MappingCategory::Stock.type_field(), "movement_type_code");
    assert_eq!(MappingCategory::Asset.type_field(), "asset_transaction_type");
    assert_eq!(MappingCategory::Cash.type_field(), "cash_movement_type");
    assert_eq!(MappingCategory::Stock.title(), "Материални запаси");
    assert_eq!(MappingCategory::Asset.title(), "Дълготрайни активи");
    assert_eq!(MappingCategory::Cash.title(), "Парични средства");
    assert_eq!(MappingCategory::Asset.types_key(), "transaction_types");
    assert_eq!(MappingCategory::Cash.types_key(), "movement_types");
    assert_eq!(MappingCategory::Cash.type_label(), "Тип плащане");
    assert_eq!(mappings_url(MappingCategory::Cash), "/api/companies/1/saft/cash_mappings");
    assert_eq!(mapping_url(MappingCategory::Stock, 5), "/api/companies/1/saft/movement_mappings/5");
    assert_eq!(defaults_url(MappingCategory::Asset), "/api/companies/1/saft/asset_mappings/create_defaults");
    assert_eq!(mapping_save_url(MappingCategory::Asset, Some(3)), "/api/companies/1/saft/asset_mappings/3");
    assert_eq!(mapping_save_url(MappingCategory::Asset, None), "/api/companies/1/saft/asset_mappings");
}

#[test]
fn a_loaded_record_reads_its_type_from_the_last_field_given() {
    let m = mapping(1, "10", "Покупка");
    let codes = vec![Some("11".to_string()), None, Some("31".to_string())];
    let names = vec![None, Some("Плащане".to_string())];
    let n = normalize_mapping(m, &codes, &names);
    assert_eq!(n.type_code, "31");
    assert_eq!(n.movement_type_name, "Плащане");
    assert_eq!(n.id, 1);
    assert_eq!(n.debit_account, "302");
    let kept = normalize_mapping(mapping(2, "10", "x"), &vec![None, None, None], &vec![None, None]);
    assert_eq!((kept.type_code.as_str(), kept.movement_type_name.as_str()), ("10", "x"));
}

#[test]
fn movement_types_sorted_by_code() {
    let codes: Vec<String> = ["20", "10", "100", "10"].iter().map(|s| s.to_string()).collect();
    let names = vec![Some("Б".to_string()), Some("А".to_string()), None, Some("В".to_string())];
    let (types, order) = movement_types_from(&codes, &names);
    assert_eq!(order, vec![1, 3, 2, 0]);
    let shown: Vec<(String, String)> = types.iter().map(|t| (t.code.clone(), t.name.clone())).collect();
    assert_eq!(shown, vec![
        ("10".to_string(), "А".to_string()),
        ("10".to_string(), "В".to_string()),
        ("100".to_string(), String::new()),
        ("20".to_string(), "Б".to_string()),
    ]);
    let t = MovementType { code: "10".to_string(), name: "Доставка".to_string() };
    assert_eq!(movement_type_option_label(&t), "10 - Доставка");
}

#[test]
fn table_groups_by_type_ordered_by_number() {
    let ms = vec![
        mapping(1, "20", "Продажба"),
        mapping(2, "abc", "Друго"),
        mapping(3, "3", "Брак"),
        mapping(4, "20", "Продажба 2"),
        mapping(5, "999", "Последно"),
    ];
    let (groups, owner) = group_mappings(&ms);
    let shown: Vec<(String, String, Vec<usize>)> = groups.iter()
        .map(|g| (g.code.clone(), g.movement_type_name.clone(), g.members.clone())).collect();
    assert_eq!(shown, vec![
        ("3".to_string(), "Брак".to_string(), vec![2]),
        ("20".to_string(), "Продажба".to_string(), vec![0, 3]),
        ("abc".to_string(), "Друго".to_string(), vec![1]),
        ("999".to_string(), "Последно".to_string(), vec![4]),
    ]);
    assert_eq!(owner, vec![1, 2, 0, 1, 3]);
    assert_eq!(group_heading(&groups[1]), "20 - Продажба");
    let (none, _) = group_mappings(&Vec::new());
    assert!(none.is_empty());
}

#[test]
fn mapping_form_and_request() {
    let f = new_mapping_form();
    assert!(f.editing_id.is_none() && f.movement_type.is_empty() && f.description.is_empty());
    assert_eq!(mapping_form_title(None), "Нова кореспонденция");
    let mut m = mapping(8, "10", "x");
    m.credit_analytical = Some("4011".to_string());
    let g = mapping_form_for(&m);
    assert_eq!(g.editing_id, Some(8));
    assert_eq!(g.movement_type, "10");
    assert_eq!(g.debit_analytical, "");
    assert_eq!(g.credit_analytical, "4011");
    assert_eq!(mapping_form_title(g.editing_id), "Редактиране");
    let r = mapping_request(&g, MappingCategory::Cash);
    assert_eq!(r.type_field, "cash_movement_type");
    assert_eq!(r.type_code, "10");
    assert_eq!(r.debit_analytical, None);
    assert_eq!(r.credit_analytical, Some("4011".to_string()));
    assert_eq!(r.description, None);
    assert!(r.is_active);
}

#[test]
fn mapping_messages() {
    assert_eq!(load_error_message("timeout"), "Грешка при зареждане: timeout");
    assert_eq!(action_error_message("500"), "Грешка: 500");
    assert!(defaults_enabled(false, 0));
    assert!(!defaults_enabled(true, 0));
    assert!(!defaults_enabled(false, 2));
}

#[test]
fn export_period_choices() {
    assert_eq!(initial_period(), (2026, 1, "monthly"));
    let ys = years();
    assert_eq!(ys.len(), 11);
    assert_eq!(ys[0], 2020);
    assert_eq!(ys[10], 2030);
    assert_eq!(month_label(1, true), "Януари");
    assert_eq!(month_label(12, false), "December");
    assert_eq!(chosen_year("2024"), 2024);
    assert_eq!(chosen_year("abc"), 2025);
    assert_eq!(chosen_month("7"), 7);
    assert_eq!(chosen_month(""), 1);
}

#[test]
fn export_needs_a_company() {
    assert_eq!(company_for_export(None), Err("saft.selectCompanyFirst"));
    assert_eq!(company_for_export(Some(0)), Err("saft.selectCompanyFirst"));
    assert_eq!(company_for_export(Some(4)), Ok(4));
}

#[test]
fn company_details_for_the_export() {
    let companies = vec![
        CompanyInfo { id: 1, name: "Алфа".to_string(), eik: None },
        CompanyInfo { id: 2, name: "Бета".to_string(), eik: Some("123456789".to_string()) },
        CompanyInfo { id: 2, name: "Бета 2".to_string(), eik: Some("999".to_string()) },
    ];
    assert_eq!(company_eik(&companies, 2), "123456789");
    assert_eq!(company_eik(&companies, 1), "");
    assert_eq!(company_eik(&companies, 9), "");
    assert_eq!(selected_company_label(&Some(companies[1].clone())), "Бета (123456789)");
    assert_eq!(selected_company_label(&Some(companies[0].clone())), "Алфа");
    assert_eq!(selected_company_label(&None), "Моля изберете фирма от менюто");
}

#[test]
fn export_addresses_and_file_name() {
    assert_eq!(validate_url("https://x", 3, 2024, 5), "https://x/api/saft/validate?company_id=3&year=2024&month=5");
    assert_eq!(export_url("", 3, 2024, 12, "annual"), "/api/saft/export?company_id=3&year=2024&month=12&report_type=annual");
    assert_eq!(saft_filename("123456789", 2024, 3, "monthly"), "SAFT_123456789_202403_monthly.xml");
    assert_eq!(saft_filename("", 2026, 11, "ondemand"), "SAFT__202611_ondemand.xml");
    assert_eq!(bearer("tok"), "Bearer tok");
}

#[test]
fn export_failures_as_shown() {
    assert_eq!(validation_failure(&Failure::Status(500)), "Validation failed: HTTP 500");
    assert_eq!(validation_failure(&Failure::Request("offline".to_string())), "Validation failed: offline");
    assert_eq!(validation_failure(&Failure::Unreadable("bad json".to_string())), "Failed to parse response: bad json");
    assert_eq!(export_failure(&Failure::Status(404)), "Export failed: HTTP 404");
    assert_eq!(export_failure(&Failure::Request("offline".to_string())), "Export failed: offline");
}

#[test]
fn a_clean_check() {
    let mut r = ValidationResult { valid: true, ..Default::default() };
    assert!(all_clear(&r));
    r.warnings.push("w".to_string());
    assert!(!all_clear(&r));
    r.warnings.clear();
    r.valid = false;
    assert!(!all_clear(&r));
}

#[test]
fn mapping_answers_and_the_form() {
    let mut form = new_mapping_form();
    form.editing_id = Some(7);
    form.movement_type = "10".to_string();
    form.debit_account = "304".to_string();
    let (n, done) = after_mapping_save(Err("отказ".to_string()), &mut form);
    assert!(!done);
    assert!(matches!(n, Notice::Error(ref m) if m == "Грешка: отказ"));
    assert_eq!(form.editing_id, Some(7));
    assert_eq!(form.debit_account, "304");
    let (n, done) = after_mapping_save(Ok(()), &mut form);
    assert!(done);
    assert!(matches!(n, Notice::Success(ref m) if m == "Запазено"));
    assert_eq!(form.editing_id, None);
    assert_eq!(form.movement_type, "");
    assert_eq!(form.debit_account, "");
    assert!(matches!(after_mapping_delete(Ok(())), Notice::Success(ref m) if m == "Изтрито"));
    assert!(matches!(after_mapping_delete(Err("e".to_string())), Notice::Error(ref m) if m == "Грешка: e"));
    assert!(matches!(after_defaults(Ok(())), Notice::Success(ref m) if m == "Стандартните настройки са създадени"));
    assert!(matches!(after_defaults(Err("x".to_string())), Notice::Error(ref m) if m == "Грешка: x"));
}
