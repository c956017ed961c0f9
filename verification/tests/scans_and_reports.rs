use ledger_ui::reports::CounterpartPicker;
use ledger_ui::reports::{account_field_label, account_heading, account_not_found, account_placeholder, closing_caption,
    counterpart_field_label, counterpart_label, counterpart_sections, filter_note, find_account_id, initial_filters,
    ledger_account_missing, offered_counterparts, picker_text, report_counterpart_name, report_kind, report_url,
    shows_counterpart_picker, shows_level_choice, subtotal_caption, turnover_caption, AccountRef, CounterpartOption,
    ReportFilters, ReportKind};
use ledger_ui::scanned_invoices::{base64_len_fits, booking_feedback, company_or_default, current_vat_period, dialog_counter, initial_options,
    invoice_date_cell, invoice_status_label, invoice_status_style, invoice_url, invoices_url, is_processed,
    journal_entry_href, journal_entry_tag, journal_entry_url, next_index, next_unprocessed, party_name, party_vat_number,
    position_of, previous_index, progress_text, scan_url, set_party_name, set_party_vat_number, short_date, start_upload,
    status_background, status_icon, Feedback, ScanReply, ScannedInvoiceRow, UploadQueue, UploadStatus};

fn invoice(id: i64, direction: &str, status: &str) -> ScannedInvoiceRow {
    ScannedInvoiceRow {
        id,
        direction: direction.to_string(),
        status: status.to_string(),
        ..Default::default()
    }
}

fn queue_of(n: usize) -> UploadQueue {
    let mut q = UploadQueue::new();
    for i in 0..n {
        q.add(format!("f{}.pdf", i), vec![b'M', b'a', b'n'][..(i % 3) + 1].to_vec());
    }
    q
}

#[test]
fn files_are_sent_in_base64() {
    let mut q = UploadQueue::new();
    q.add("a.pdf".to_string(), b"Man".to_vec());
    q.add("b.pdf".to_string(), b"Ma".to_vec());
    q.add("c.pdf".to_string(), b"M".to_vec());
    q.add("d.pdf".to_string(), Vec::new());
    q.add("e.pdf".to_string(), vec![0xfb, 0xff, 0x00, 0x10]);
    let expected = ["TWFu", "TWE=", "TQ==", "", "+/8AEA=="];
    for (i, want) in expected.iter().enumerate() {
        let req = q.begin(i, "purchase", "2024-05").expect("a file");
        assert_eq!(req.file_content, *want);
        assert_eq!(req.direction, "purchase");
        assert_eq!(req.vat_period, "2024-05");
        assert_eq!(q.files[i].status, UploadStatus::Uploading);
    }
    assert!(base64_len_fits(&q, 0) && base64_len_fits(&q, 9));
    assert_eq!(q.begin(9, "purchase", "2024-05").map(|r| r.file_name), None);
    assert_eq!(q.begin(0, "sale", "2024-06").map(|r| r.file_name), Some("a.pdf".to_string()));
}

#[test]
fn upload_outcomes_touch_one_file() {
    let mut q = queue_of(3);
    q.record(0, ScanReply::Answered { success: true, error: None });
    q.record(1, ScanReply::Answered { success: false, error: None });
    q.record(2, ScanReply::Failed("timeout".to_string()));
    q.record(7, ScanReply::Failed("ignored".to_string()));
    let statuses: Vec<UploadStatus> = q.files.iter().map(|f| f.status).collect();
    assert_eq!(statuses, vec![UploadStatus::Done, UploadStatus::Error, UploadStatus::Error]);
    assert_eq!(q.files[0].error, None);
    assert_eq!(q.files[1].error, Some("Грешка".to_string()));
    assert_eq!(q.files[2].error, Some("timeout".to_string()));
    let mut r = queue_of(1);
    r.record(0, ScanReply::Answered { success: false, error: Some("Лош файл".to_string()) });
    assert_eq!(r.files[0].error, Some("Лош файл".to_string()));
}

#[test]
fn the_queue_is_finished_when_every_file_is_done_or_failed() {
    let mut q = queue_of(2);
    assert!(!q.all_done());
    assert_eq!(progress_text(&q, false), "2 файла за качване");
    q.record(0, ScanReply::Answered { success: true, error: None });
    assert_eq!(progress_text(&q, true), "Качване... 1/2");
    assert!(!q.all_done());
    q.record(1, ScanReply::Failed("x".to_string()));
    assert!(q.all_done());
    assert_eq!((q.done_count(), q.error_count()), (1, 1));
    assert_eq!(progress_text(&q, false), "Готово: 1 успешни, 1 грешки");
    q.clear();
    assert!(q.all_done());
    assert_eq!(q.len(), 0);
}

#[test]
fn an_upload_run_waits_between_files() {
    assert!(start_upload(&UploadQueue::new()).is_none());
    let q = queue_of(3);
    let mut run = start_upload(&q).expect("a run");
    assert_eq!((run.next, run.total), (0, 3));
    let mut seen = Vec::new();
    while let Some(step) = run.next_file() {
        seen.push(step);
        run.advance();
    }
    assert_eq!(seen, vec![(0, 0), (1, 3000), (2, 3000)]);
}

#[test]
fn upload_status_marks() {
    assert_eq!(status_icon(UploadStatus::Pending), "⏳");
    assert_eq!(status_icon(UploadStatus::Error), "❌");
    assert_eq!(status_background(UploadStatus::Done), "#e8f5e9");
    assert_eq!(status_background(UploadStatus::Pending), "white");
}

#[test]
fn table_columns() {
    let mut p = invoice(1, "purchase", "pending");
    p.vendor_name = Some("Доставчик".to_string());
    p.customer_name = Some("Ние".to_string());
    assert_eq!(party_name(&p), "Доставчик");
    assert_eq!(party_vat_number(&p), "-");
    let mut s = invoice(2, "sale", "processed");
    s.customer_vat_number = Some("BG1".to_string());
    assert_eq!(party_name(&s), "-");
    assert_eq!(party_vat_number(&s), "BG1");
    assert_eq!(short_date("2024-05-17T00:00:00"), "2024-05-17");
    assert_eq!(short_date("2024-5-1"), "2024-5-1");
    s.invoice_date = Some("2024-05-17T10:00:00Z".to_string());
    assert_eq!(invoice_date_cell(&s), "2024-05-17");
    assert_eq!(invoice_date_cell(&p), "-");
    assert_eq!(invoice_status_label("validated"), "Валидиран");
    assert_eq!(invoice_status_label("needs_review"), "needs_review");
    assert_eq!(invoice_status_style("rejected"), "background: #e74c3c; color: white;");
    assert_eq!(invoice_status_style("x"), "background: #95a5a6; color: white;");
    assert!(is_processed(&s) && !is_processed(&p));
    assert_eq!(journal_entry_href(15), "/journal-entries?edit=15");
    assert_eq!(journal_entry_tag(15), "#15");
}

#[test]
fn review_dialog_moves() {
    let list = vec![invoice(10, "purchase", "processed"), invoice(11, "purchase", "pending"), invoice(12, "sale", "processed"), invoice(13, "sale", "validated")];
    assert_eq!(position_of(&list, 12), 2);
    assert_eq!(position_of(&list, 99), 0);
    assert_eq!(previous_index(0, 4), 0);
    assert_eq!(previous_index(2, 4), 1);
    assert_eq!(next_index(2, 4), 3);
    assert_eq!(next_index(3, 4), 3);
    assert_eq!(next_index(0, 0), 0);
    for i in 0..3 {
        assert_eq!(previous_index(next_index(i, 4), 4), i);
    }
    assert_eq!(dialog_counter(2, 4), "3 / 4");
    assert_eq!(next_unprocessed(&list, 0), Some(1));
    assert_eq!(next_unprocessed(&list, 1), Some(3));
    assert_eq!(next_unprocessed(&list, 3), None);
    assert_eq!(next_unprocessed(&list, 40), None);
}

#[test]
fn dialog_fields_follow_the_direction() {
    let mut p = invoice(1, "purchase", "pending");
    set_party_name(&mut p, "А".to_string());
    set_party_vat_number(&mut p, "BG9".to_string());
    assert_eq!((p.vendor_name.clone(), p.customer_name.clone()), (Some("А".to_string()), None));
    assert_eq!(p.vendor_vat_number, Some("BG9".to_string()));
    let mut s = invoice(2, "sale", "pending");
    set_party_name(&mut s, "Б".to_string());
    assert_eq!((s.vendor_name.clone(), s.customer_name.clone()), (None, Some("Б".to_string())));
}

#[test]
fn scan_endpoints_and_options() {
    assert_eq!(company_or_default(None), 1);
    assert_eq!(company_or_default(Some(4)), 4);
    assert_eq!(invoices_url(4), "/api/companies/4/scanned_invoices");
    assert_eq!(scan_url(4), "/api/companies/4/scanned_invoices/scan");
    assert_eq!(invoice_url(4, 9), "/api/companies/4/scanned_invoices/9");
    assert_eq!(journal_entry_url(4, 9), "/api/companies/4/scanned_invoices/9/create_journal_entry");
    assert_eq!(current_vat_period(2024, 0), "2024-01");
    assert_eq!(current_vat_period(2024, 11), "2024-12");
    let (d, p) = initial_options(None, None, "2024-01".to_string());
    assert_eq!((d.as_str(), p.as_str()), ("purchase", "2024-01"));
    let (d, p) = initial_options(Some("sale".to_string()), Some("2023-12".to_string()), "2024-01".to_string());
    assert_eq!((d.as_str(), p.as_str()), ("sale", "2023-12"));
}

#[test]
fn booking_feedback_messages() {
    assert!(matches!(booking_feedback(ScanReply::Answered { success: true, error: None }), Feedback::Success(ref m) if m == "Осчетоводено успешно"));
    assert!(matches!(booking_feedback(ScanReply::Answered { success: false, error: None }), Feedback::Failure(ref m) if m == "Грешка"));
    assert!(matches!(booking_feedback(ScanReply::Answered { success: false, error: Some("Липсва сметка".to_string()) }), Feedback::Failure(ref m) if m == "Липсва сметка"));
    assert!(matches!(booking_feedback(ScanReply::Failed("x".to_string())), Feedback::Failure(ref m) if m == "Грешка: x"));
}

#[test]
fn report_choice_and_fields() {
    assert_eq!(report_kind("trial_balance"), ReportKind::TrialBalance);
    assert_eq!(report_kind("general_ledger"), ReportKind::GeneralLedger);
    assert_eq!(report_kind("trial_balance_counterpart"), ReportKind::TrialBalanceByCounterpart);
    assert_eq!(report_kind("account_ledger"), ReportKind::AccountLedger);
    assert_eq!(report_kind("anything"), ReportKind::Chronological);
    assert!(shows_level_choice(ReportKind::TrialBalance) && !shows_level_choice(ReportKind::GeneralLedger));
    assert!(shows_counterpart_picker(ReportKind::AccountLedger) && !shows_counterpart_picker(ReportKind::TrialBalance));
    assert_eq!(counterpart_field_label(ReportKind::TrialBalanceByCounterpart), "Контрагент (опц.)");
    assert_eq!(counterpart_field_label(ReportKind::Chronological), "Контрагент");
    assert_eq!(account_field_label(ReportKind::Chronological), "Сметка (опц.)");
    assert_eq!(account_field_label(ReportKind::AccountLedger), "Сметка");
    assert_eq!(account_field_label(ReportKind::GeneralLedger), "Филтър сметки");
    assert_eq!(account_placeholder(ReportKind::AccountLedger), "напр. 401");
    assert_eq!(account_placeholder(ReportKind::TrialBalance), "напр. 6* или 601*");
}

#[test]
fn report_addresses() {
    let mut f: ReportFilters = initial_filters();
    assert_eq!(f.group_by_level, "0");
    f.date_from = "2024-01-01".to_string();
    f.date_to = "2024-12-31".to_string();
    f.account_filter = "6*".to_string();
    f.counterpart_id = "7".to_string();
    let base = "/api/companies/1";
    assert_eq!(report_url(base, ReportKind::TrialBalance, &f, 0),
        "/api/companies/1/reports/trial_balance?date_from=2024-01-01&date_to=2024-12-31&account_filter=6*&group_by_level=0");
    assert_eq!(report_url(base, ReportKind::Chronological, &f, 0),
        "/api/companies/1/reports/chronological?date_from=2024-01-01&date_to=2024-12-31&account_code=6*&counterpart_id=7");
    assert_eq!(report_url(base, ReportKind::GeneralLedger, &f, 0),
        "/api/companies/1/reports/general_ledger?date_from=2024-01-01&date_to=2024-12-31&account_filter=6*");
    assert_eq!(report_url(base, ReportKind::TrialBalanceByCounterpart, &f, 0),
        "/api/companies/1/reports/trial_balance_by_counterpart?date_from=2024-01-01&date_to=2024-12-31&counterpart_id=7&account_filter=6*");
    assert_eq!(report_url(base, ReportKind::AccountLedger, &f, 42),
        "/api/companies/1/reports/account_ledger?date_from=2024-01-01&date_to=2024-12-31&account_id=42&counterpart_id=7");
}

#[test]
fn ledger_card_account() {
    let accounts = vec![
        AccountRef { id: Some(1), code: Some("401".to_string()) },
        AccountRef { id: None, code: Some("411".to_string()) },
        AccountRef { id: Some(3), code: Some("411".to_string()) },
        AccountRef { id: Some(4), code: None },
    ];
    assert_eq!(find_account_id(&accounts, "401"), Some(1));
    assert_eq!(find_account_id(&accounts, "411"), None);
    assert_eq!(find_account_id(&accounts, "999"), None);
    assert_eq!(ledger_account_missing(""), Some("Моля, въведете сметка"));
    assert_eq!(ledger_account_missing("401"), None);
    assert_eq!(account_not_found("999"), "Сметка 999 не е намерена");
}

#[test]
fn counterpart_picker() {
    let options = vec![
        CounterpartOption { id: 1, name: "Алфа ООД".to_string(), eik: Some("123456789".to_string()) },
        CounterpartOption { id: 2, name: "БЕТА".to_string(), eik: None },
        CounterpartOption { id: 3, name: "Гама".to_string(), eik: Some(String::new()) },
    ];
    assert_eq!(offered_counterparts(&options, ""), vec![0, 1, 2]);
    assert_eq!(offered_counterparts(&options, "бета"), vec![1]);
    assert_eq!(offered_counterparts(&options, "АЛФА"), vec![0]);
    assert_eq!(offered_counterparts(&options, "3456"), vec![0]);
    assert!(offered_counterparts(&options, "xyz").is_empty());
    assert_eq!(counterpart_label(&options[0]), "Алфа ООД (123456789)");
    assert_eq!(counterpart_label(&options[1]), "БЕТА");
    assert_eq!(counterpart_label(&options[2]), "Гама");
    assert_eq!(picker_text(true, "ал", "Алфа ООД (123456789)"), "ал");
    assert_eq!(picker_text(false, "ал", "Алфа ООД (123456789)"), "Алфа ООД (123456789)");
}

#[test]
fn report_headings() {
    assert_eq!(report_counterpart_name(None), "Всички контрагенти");
    assert_eq!(report_counterpart_name(Some(None)), "");
    assert_eq!(report_counterpart_name(Some(Some("Алфа".to_string()))), "Алфа");
    assert_eq!(filter_note("Сметка", "401"), " | Сметка: 401");
    assert_eq!(filter_note("Филтър", ""), "");
    assert_eq!(account_heading("401", "Доставчици"), "Сметка 401 - Доставчици");
    assert_eq!(turnover_caption(3), "Обороти (3 операции):");
    assert_eq!(closing_caption(12), "Крайно салдо (12 сметки)");
    assert_eq!(subtotal_caption("401"), "Общо с/ка 401");
}

#[test]
fn trial_balance_by_counterpart_sections() {
    let codes: Vec<String> = ["401", "401", "411", "", "", "401"].iter().map(|s| s.to_string()).collect();
    let sections: Vec<(usize, usize, bool, bool)> = counterpart_sections(&codes).into_iter()
        .map(|s| (s.start, s.end, s.header, s.subtotal)).collect();
    assert_eq!(sections, vec![(0, 2, true, true), (2, 3, true, true), (3, 5, true, false), (5, 6, true, true)]);
    let leading_empty: Vec<String> = ["", "401"].iter().map(|s| s.to_string()).collect();
    let sections: Vec<(usize, usize, bool, bool)> = counterpart_sections(&leading_empty).into_iter()
        .map(|s| (s.start, s.end, s.header, s.subtotal)).collect();
    assert_eq!(sections, vec![(0, 1, false, false), (1, 2, true, true)]);
    assert!(counterpart_sections(&Vec::new()).is_empty());
}

#[test]
fn base64_fills_whole_groups_of_four() {
    let mut q = UploadQueue::new();
    for n in 0..10usize {
        q.add(format!("{}.bin", n), vec![7u8; n]);
    }
    for n in 0..10usize {
        let req = q.begin(n, "sale", "2024-01").expect("a file");
        assert_eq!(req.file_content.len(), 4 * ((n + 2) / 3));
        assert!(req.file_content.chars().all(|c| c.is_ascii_alphanumeric() || c == '+' || c == '/' || c == '='));
    }
}

#[test]
fn switching_report_clears_the_loaded_rows() {
    let mut rows = ledger_ui::reports::ClearedOnSwitch {
        trial_balance: vec![1, 2],
        chronological: vec!["a"],
        general_ledger: vec![0.5],
        by_counterpart: vec![3],
        by_counterpart_totals: Some("t"),
    };
    let k = ledger_ui::reports::switch_report(&mut rows, "general_ledger");
    assert_eq!(k, ReportKind::GeneralLedger);
    assert!(rows.trial_balance.is_empty() && rows.chronological.is_empty() && rows.general_ledger.is_empty());
    assert!(rows.by_counterpart.is_empty() && rows.by_counterpart_totals.is_none());
}

#[test]
fn counterpart_picker_steps() {
    let mut filters = initial_filters();
    filters.date_from = "2024-01-01".to_string();
    let mut p = CounterpartPicker::new();
    assert!(!p.open);
    assert_eq!(picker_text(p.open, &p.search, &p.chosen_label), "");
    p.type_search("алф");
    assert!(p.open);
    assert_eq!(p.search, "алф");
    let c = CounterpartOption { id: 42, name: "Алфа ООД".to_string(), eik: Some("123456789".to_string()) };
    p.pick(&mut filters, &c);
    assert!(!p.open);
    assert_eq!(p.search, "");
    assert_eq!(p.chosen_label, "Алфа ООД (123456789)");
    assert_eq!(filters.counterpart_id, "42");
    assert_eq!(filters.date_from, "2024-01-01");
    assert_eq!(picker_text(p.open, &p.search, &p.chosen_label), "Алфа ООД (123456789)");
    p.focus();
    assert!(p.open);
    assert_eq!(p.search, "");
    assert_eq!(p.chosen_label, "Алфа ООД (123456789)");
    p.type_search("x");
    p.clear_choice(&mut filters);
    assert_eq!(filters.counterpart_id, "");
    assert_eq!(p.chosen_label, "");
    assert!(p.open);
    assert_eq!(p.search, "x");
    assert_eq!(filters.date_from, "2024-01-01");
}
