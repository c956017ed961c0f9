use ledger_ui::journal_entries::{after_action, bulk_ids, BulkAction};
use ledger_ui::answers::Notice;
use ledger_ui::journal_entries::{action_notice, ActionReply, EntryAction};
use ledger_ui::answers::save_refusal;
use ledger_ui::journal_entries::{is_vat_line, pagination_from};
use ledger_ui::journal_entries::{all_selectable, all_selected, count_selected_with_status, count_with_status,
    counterpart_id_value, deletable_ids, edit_entry_type, edit_id_from_query, edit_vat_fields, filter_accounts,
    filter_counterparts, filter_entries, format_date, get_date_part, get_status_badge, journal_entries_url,
    line_account_code, remove_line, status_counts, toggle_all, vat_operations, vat_period_for_edit,
    vat_period_from_date, vat_period_value, Account, Counterpart, EntryRow, Selection};

fn entry(id: i64, date: &str, description: &str, status: &str) -> EntryRow {
    EntryRow {
        id,
        entry_date: date.to_string(),
        description: description.to_string(),
        status: status.to_string(),
        ..Default::default()
    }
}

fn sample() -> Vec<EntryRow> {
    let mut e = vec![
        entry(1, "2024-01-10T00:00:00", "Доставка на стоки", "draft"),
        entry(2, "2024-02-01", "Продажба", "posted"),
        entry(3, "2024-03-05T12:00:00", "Анулирана", "voided"),
        entry(4, "2024-01-20", "Наем", "draft"),
    ];
    e[1].reference = Some("INV-77".to_string());
    e[3].document_number = Some("0000123".to_string());
    e
}

#[test]
fn dates_as_shown() {
    assert_eq!(format_date("2024-01-15T10:30:00Z"), "15.01.2024");
    assert_eq!(format_date("2024-01-15"), "15.01.2024");
    assert_eq!(format_date("2024-01"), "2024-01");
    assert_eq!(format_date("n/a"), "n/a");
    assert_eq!(get_date_part("2024-01-15T10:30:00"), "2024-01-15");
    assert_eq!(get_date_part(""), "");
}

#[test]
fn status_badges() {
    assert_eq!(get_status_badge("draft"), ("Чернова", "#f39c12"));
    assert_eq!(get_status_badge("posted"), ("Осчетоводен", "#27ae60"));
    assert_eq!(get_status_badge("voided"), ("Анулиран", "#e74c3c"));
    assert_eq!(get_status_badge("x"), ("Неизвестен", "#7f8c8d"));
}

#[test]
fn filtering_entries() {
    let e = sample();
    assert_eq!(filter_entries(&e, "", "", "", ""), vec![0, 1, 2, 3]);
    assert_eq!(filter_entries(&e, "", "draft", "", ""), vec![0, 3]);
    assert_eq!(filter_entries(&e, "", "", "2024-01-15", "2024-02-29"), vec![1, 3]);
    assert_eq!(filter_entries(&e, "", "", "2024-01-10", "2024-01-10"), vec![0]);
    assert_eq!(filter_entries(&e, "ДОСТАВКА", "", "", ""), vec![0]);
    assert_eq!(filter_entries(&e, "inv-77", "", "", ""), vec![1]);
    assert_eq!(filter_entries(&e, "123", "", "", ""), vec![3]);
    assert!(filter_entries(&e, "наем", "posted", "", "").is_empty());
}

#[test]
fn counting_entries_by_status() {
    let e = sample();
    let counts: Vec<(String, usize)> = status_counts(&e).into_iter().map(|kc| (kc.key, kc.count)).collect();
    assert_eq!(counts, vec![("draft".to_string(), 2), ("posted".to_string(), 1), ("voided".to_string(), 1)]);
    assert_eq!(count_with_status(&e, "draft"), 2);
    assert_eq!(count_with_status(&e, "missing"), 0);
}

#[test]
fn clicking_an_entry_twice_leaves_the_selection_as_it_was() {
    let mut s = Selection::new();
    s.insert(4);
    s.toggle(1);
    assert!(s.contains(1) && s.contains(4) && s.len() == 2);
    s.toggle(1);
    assert!(!s.contains(1) && s.contains(4) && s.len() == 1);
    s.toggle(4);
    s.toggle(4);
    assert!(s.contains(4) && s.len() == 1);
}

#[test]
fn selection_keeps_no_repeats() {
    let mut s = Selection::new();
    s.insert(3);
    s.insert(3);
    assert_eq!(s.len(), 1);
    assert_eq!(s.ids(), vec![3]);
    s.clear();
    assert!(s.is_empty());
}

#[test]
fn selecting_all_entries() {
    let e = sample();
    let all = all_selectable(&e);
    let mut ids = all.ids();
    ids.sort();
    assert_eq!(ids, vec![1, 2, 4]);
    let mut s = Selection::new();
    assert!(!all_selected(&s, &e));
    toggle_all(&mut s, &e);
    assert!(all_selected(&s, &e));
    assert_eq!(s.len(), 3);
    toggle_all(&mut s, &e);
    assert!(s.is_empty());
    assert!(!all_selected(&s, &Vec::new()));
}

#[test]
fn bulk_actions_on_the_selection() {
    let e = sample();
    let mut s = Selection::new();
    s.insert(1);
    s.insert(2);
    s.insert(3);
    assert_eq!(count_selected_with_status(&e, &s, "draft"), 1);
    assert_eq!(count_selected_with_status(&e, &s, "posted"), 1);
    assert_eq!(deletable_ids(&s, &e), vec![1]);
}

#[test]
fn vat_fields_of_the_edit_form() {
    assert_eq!(vat_period_for_edit("15.3.2024"), "2024-03");
    assert_eq!(vat_period_for_edit("01.12.2023"), "2023-12");
    assert_eq!(vat_period_for_edit("2024-03"), "2024-03");
    assert_eq!(vat_period_for_edit("a.b"), "a.b");
    assert_eq!(edit_entry_type("01|PURCHASE_CREDIT", ""), "PURCHASE");
    assert_eq!(edit_entry_type("", "02|DOMESTIC_SALE"), "SALE");
    assert_eq!(edit_entry_type("", ""), "NON_VAT");
    assert_eq!(edit_vat_fields("03|X", ""), ("03".to_string(), "X".to_string()));
    assert_eq!(edit_vat_fields("07", ""), ("07".to_string(), "PURCHASE_CREDIT".to_string()));
    assert_eq!(edit_vat_fields("", "02"), ("02".to_string(), "DOMESTIC_SALE".to_string()));
    assert_eq!(edit_vat_fields("", ""), ("01".to_string(), "PURCHASE_CREDIT".to_string()));
}

#[test]
fn vat_fields_as_saved() {
    assert_eq!(vat_operations("PURCHASE", "01", "PURCHASE_CREDIT"), (Some("01|PURCHASE_CREDIT".to_string()), None));
    assert_eq!(vat_operations("SALE", "02", "DOMESTIC_SALE"), (None, Some("02|DOMESTIC_SALE".to_string())));
    assert_eq!(vat_operations("NON_VAT", "01", "X"), (None, None));
    assert_eq!(vat_period_value("NON_VAT", "2024-01"), None);
    assert_eq!(vat_period_value("SALE", "2024-01"), Some("2024-01".to_string()));
    assert_eq!(counterpart_id_value(""), None);
    assert_eq!(counterpart_id_value("12"), Some(12));
    assert_eq!(counterpart_id_value("x"), None);
    assert_eq!(vat_period_from_date("2024-03-15"), Some("2024-03".to_string()));
    assert_eq!(vat_period_from_date("2024"), None);
}

#[test]
fn removing_lines_keeps_two() {
    let mut lines = vec!['a', 'b', 'c'];
    remove_line(&mut lines, 1);
    assert_eq!(lines, vec!['a', 'c']);
    remove_line(&mut lines, 0);
    assert_eq!(lines, vec!['a', 'c']);
}

#[test]
fn line_codes_and_pickers() {
    let accounts = vec![
        Account { id: 5, code: "401".to_string(), name: "Доставчици".to_string() },
        Account { id: 6, code: "411".to_string(), name: "Клиенти".to_string() },
    ];
    assert_eq!(line_account_code("", 6, &accounts), "411");
    assert_eq!(line_account_code("302", 6, &accounts), "302");
    assert_eq!(line_account_code("", 9, &accounts), "");
    assert_eq!(filter_accounts(&accounts, "КЛИЕН"), vec![1]);
    assert_eq!(filter_accounts(&accounts, "40"), vec![0]);
    assert_eq!(filter_accounts(&accounts, ""), vec![0, 1]);
    let cps = vec![
        Counterpart { id: 1, name: "Алфа ООД".to_string(), vat_number: Some("BG123".to_string()), counterpart_type: String::new() },
        Counterpart { id: 2, name: "Бета".to_string(), vat_number: None, counterpart_type: String::new() },
    ];
    assert_eq!(filter_counterparts(&cps, "bg1"), vec![0]);
    assert_eq!(filter_counterparts(&cps, "БЕТА"), vec![1]);
    assert_eq!(filter_counterparts(&cps, ""), vec![0, 1]);
}

#[test]
fn entry_list_address_encodes_the_query() {
    assert_eq!(journal_entries_url("/api/companies/1", 2, 20, "draft", "a b&ц"),
        "/api/companies/1/journal_entries?page=2&per_page=20&status=draft&q=a%20b%26%D1%86");
    assert_eq!(journal_entries_url("/api", 1, 50, "", ""), "/api/journal_entries?page=1&per_page=50");
    assert_eq!(journal_entries_url("/api", 1, 50, "", "x-y_z.~"), "/api/journal_entries?page=1&per_page=50&q=x-y_z.~");
}

#[test]
fn entry_to_edit_from_the_query_string() {
    assert_eq!(edit_id_from_query("?edit=42"), Some(42));
    assert_eq!(edit_id_from_query("?x=1&edit=7"), Some(7));
    assert_eq!(edit_id_from_query("?x=1&edit=a&edit=3"), None);
    assert_eq!(edit_id_from_query("?x=1"), None);
    assert_eq!(edit_id_from_query(""), None);
}

#[test]
fn notices_after_actions_on_entries() {
    let ok = |count: Option<i64>| ActionReply::Answered { success: true, count, error: None };
    assert!(matches!(action_notice(EntryAction::BulkPost, ok(Some(4)), 9), Notice::Success(ref m) if m == "Успешно осчетоводени 4 записа"));
    assert!(matches!(action_notice(EntryAction::BulkPost, ok(None), 9), Notice::Success(ref m) if m == "Успешно осчетоводени 9 записа"));
    assert!(matches!(action_notice(EntryAction::BulkUnpost, ok(Some(2)), 2), Notice::Success(ref m) if m == "Успешно върнати в чернова 2 записа"));
    assert!(matches!(action_notice(EntryAction::BulkDelete, ok(None), 3), Notice::Success(ref m) if m == "Успешно изтрити 3 записа"));
    assert!(matches!(action_notice(EntryAction::Delete, ok(None), 1), Notice::Success(ref m) if m == "Записът е изтрит успешно"));
    assert!(matches!(action_notice(EntryAction::Post, ok(None), 1), Notice::Success(ref m) if m == "Записът е осчетоводен успешно"));
    let refused = ActionReply::Answered { success: false, count: None, error: None };
    assert!(matches!(action_notice(EntryAction::Post, refused, 1), Notice::Error(ref m) if m == "Грешка: Неизвестна грешка"));
    let said = ActionReply::Answered { success: false, count: None, error: Some("заключен период".to_string()) };
    assert!(matches!(action_notice(EntryAction::BulkPost, said, 1), Notice::Error(ref m) if m == "Грешка: заключен период"));
    assert!(matches!(action_notice(EntryAction::BulkUnpost, ActionReply::Failed("x".to_string()), 1), Notice::Error(ref m) if m == "Грешка при връщане в чернова: x"));
    assert!(matches!(action_notice(EntryAction::Delete, ActionReply::Failed("x".to_string()), 1), Notice::Error(ref m) if m == "Грешка при изтриване: x"));
    assert!(matches!(action_notice(EntryAction::Post, ActionReply::Failed("x".to_string()), 1), Notice::Error(ref m) if m == "Грешка при осчетоводяване: x"));
}

#[test]
fn refused_saves_and_pages() {
    let msgs = Some(vec!["Датата е задължителна".to_string(), "Няма редове".to_string()]);
    assert_eq!(save_refusal(&msgs, "Неизвестна грешка"), "Грешка: Датата е задължителна, Няма редове");
    assert_eq!(save_refusal(&Some(Vec::new()), "Неизвестна грешка"), "Грешка: ");
    assert_eq!(save_refusal(&None, "Неизвестна грешка"), "Грешка: Неизвестна грешка");
    assert!(is_vat_line("4531") && !is_vat_line("401"));
    let p = pagination_from(None, None, None, None);
    assert_eq!((p.page, p.per_page, p.total, p.total_pages), (1, 25, 0, 1));
    let q = pagination_from(Some(3), Some(50), Some(120), Some(3));
    assert_eq!((q.page, q.per_page, q.total, q.total_pages), (3, 50, 120, 3));
    assert_eq!(pagination_from(Some(4294967297), None, None, None).page, 1);
}

#[test]
fn entry_lines_never_drop_below_two() {
    use_lines();
}

fn use_lines() {
    let mut lines = ledger_ui::journal_entries::fresh_lines("", "");
    assert_eq!(lines.len(), 2);
    ledger_ui::journal_entries::add_line(&mut lines, "x");
    assert_eq!(lines, vec!["", "", "x"]);
    remove_line(&mut lines, 0);
    remove_line(&mut lines, 0);
    remove_line(&mut lines, 0);
    assert_eq!(lines, vec!["", "x"]);
}

#[test]
fn only_drafts_can_be_changed() {
    let e = sample();
    assert!(ledger_ui::journal_entries::can_modify(&e[0]));
    assert!(!ledger_ui::journal_entries::can_modify(&e[1]));
    assert_eq!(ledger_ui::journal_entries::edit_hint(&e[0]), "Редактиране");
    assert_eq!(ledger_ui::journal_entries::edit_hint(&e[1]), "Не може да се редактира осчетоводен запис");
    assert_eq!(ledger_ui::journal_entries::delete_hint(&e[3]), "Изтриване");
    assert_eq!(ledger_ui::journal_entries::delete_hint(&e[2]), "Не може да се изтрие осчетоводен запис");
    assert!(ledger_ui::journal_entries::can_post(&e, 4));
    assert!(!ledger_ui::journal_entries::can_post(&e, 2));
    assert!(!ledger_ui::journal_entries::can_post(&e, 99));
}

#[test]
fn entry_fields_as_saved() {
    let f = ledger_ui::journal_entries::entry_fields("2024-05-02", "", "Наем", "0007", "PURCHASE", "01", "PURCHASE_CREDIT", "2024-05", "12");
    assert_eq!(f.entry_date, "2024-05-02");
    assert_eq!(f.document_date, None);
    assert_eq!(f.reference, None);
    assert_eq!(f.status, "draft");
    assert_eq!(f.document_number, Some("0007".to_string()));
    assert_eq!(f.vat_period, Some("2024-05".to_string()));
    assert_eq!(f.vat_purchase_operation, Some("01|PURCHASE_CREDIT".to_string()));
    assert_eq!(f.vat_sales_operation, None);
    assert_eq!(f.counterpart_id, Some(12));
    let g = ledger_ui::journal_entries::entry_fields("2024-05-02", "2024-05-01", "x", "", "NON_VAT", "01", "X", "2024-05", "");
    assert_eq!(g.document_date, Some("2024-05-01".to_string()));
    assert_eq!((g.vat_period, g.vat_purchase_operation, g.vat_sales_operation, g.counterpart_id), (None, None, None, None));
}

#[test]
fn the_date_part_of_the_date_part_is_itself() {
    for s in ["2024-01-15T10:00:00", "2024-01-15", "", "T", "aTbTc"] {
        let d = get_date_part(s);
        assert!(s.starts_with(&d));
        assert!(!d.contains('T'));
        assert!(d.len() == s.len() || s[d.len()..].starts_with('T'));
        assert_eq!(get_date_part(&d), d);
    }
}

#[test]
fn bulk_actions_send_the_selection_or_its_drafts() {
    let entries = sample();
    let mut sel = Selection::new();
    assert!(bulk_ids(BulkAction::Post, &sel, &entries).is_none());
    sel.insert(2);
    sel.insert(3);
    let mut posted = bulk_ids(BulkAction::Post, &sel, &entries).unwrap();
    posted.sort();
    assert_eq!(posted, vec![2, 3]);
    assert!(bulk_ids(BulkAction::Delete, &sel, &entries).is_none());
    sel.insert(4);
    assert_eq!(bulk_ids(BulkAction::Delete, &sel, &entries), Some(vec![4]));
    let mut unposted = bulk_ids(BulkAction::Unpost, &sel, &entries).unwrap();
    unposted.sort();
    assert_eq!(unposted, vec![2, 3, 4]);
}

#[test]
fn after_an_action_the_page_reloads_and_clears() {
    let ok = ActionReply::Answered { success: true, count: Some(2), error: None };
    let refused = ActionReply::Answered { success: false, count: None, error: Some("x".to_string()) };
    let mut sel = Selection::new();
    sel.insert(1);
    sel.insert(4);
    assert_eq!(after_action(EntryAction::BulkPost, &refused, &mut sel), (false, false));
    assert!(sel.contains(1) && sel.contains(4));
    assert_eq!(after_action(EntryAction::Delete, &ok, &mut sel), (true, false));
    assert!(sel.contains(1));
    assert_eq!(after_action(EntryAction::Post, &ok, &mut sel), (true, true));
    assert!(sel.contains(4));
    assert_eq!(after_action(EntryAction::BulkDelete, &ActionReply::Failed("net".to_string()), &mut sel), (false, false));
    assert!(sel.contains(4));
    assert_eq!(after_action(EntryAction::BulkUnpost, &ok, &mut sel), (true, false));
    assert!(!sel.contains(1) && !sel.contains(4));
    assert!(sel.ids().is_empty());
}
