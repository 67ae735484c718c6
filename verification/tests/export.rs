use kunger_lib::domain::SoftwareItem;
use kunger_lib::commands::CommandError;
use kunger_lib::export::{export_csv, export_response, ExportFormat, ExportRequest, EXPORT_SCHEMA_VERSION};

fn item(id: &str, package: &str, display: &str, manager: &str) -> SoftwareItem {
    SoftwareItem {
        id: id.to_string(),
        package_name: package.to_string(),
        display_name: display.to_string(),
        category: "Unknown".to_string(),
        package_manager: manager.to_string(),
        scope: "System".to_string(),
        version: None,
        installed_size_bytes: None,
        update_available: false,
        classification_confidence: "Low".to_string(),
    }
}

const HEADER: &str = "id,packageName,displayName,category,packageManager,scope,version,installedSizeBytes,updateAvailable,classificationConfidence";

#[test]
fn csv_export_has_a_header_and_one_data_row() {
    let content = export_csv(&vec![item("apt:git", "git", "Git", "Apt")]).expect("export");
    let lines: Vec<&str> = content.lines().collect();
    assert_eq!(lines.len(), 2);
    assert!(lines[0].starts_with("id,packageName"));
    assert!(lines[1].starts_with("apt:git,git,Git"));
}

#[test]
fn csv_export_with_no_items_is_the_header_line() {
    let content = export_csv(&vec![]).expect("export");
    assert_eq!(content, format!("{HEADER}\n"));
    assert_eq!(EXPORT_SCHEMA_VERSION, 1);
}

#[test]
fn csv_export_writes_every_field_in_order() {
    let mut it = item("flatpak:org.gimp.GIMP", "org.gimp.GIMP", "GNU Image Manipulation Program", "Flatpak");
    it.version = Some("2.10.38".to_string());
    it.installed_size_bytes = Some(123456789);
    it.update_available = true;
    it.category = "Application".to_string();
    it.classification_confidence = "High".to_string();
    let content = export_csv(&vec![it]).expect("export");
    assert_eq!(
        content,
        format!("{HEADER}\nflatpak:org.gimp.GIMP,org.gimp.GIMP,GNU Image Manipulation Program,Application,Flatpak,System,2.10.38,123456789,true,High\n")
    );
}

#[test]
fn csv_export_quotes_fields_that_need_it() {
    let mut it = item("apt:x", "x", "Say \"hi\", world", "Apt");
    it.version = Some("1.0\n2".to_string());
    it.installed_size_bytes = Some(0);
    let content = export_csv(&vec![it]).expect("export");
    assert_eq!(
        content,
        format!("{HEADER}\napt:x,x,\"Say \"\"hi\"\", world\",Unknown,Apt,System,\"1.0\n2\",0,false,Low\n")
    );
}

#[test]
fn csv_export_keeps_item_order() {
    let content = export_csv(&vec![item("b", "b", "B", "Apt"), item("a", "a", "A", "Apt")]).unwrap();
    let lines: Vec<&str> = content.lines().collect();
    assert_eq!(lines.len(), 3);
    assert!(lines[1].starts_with("b,"));
    assert!(lines[2].starts_with("a,"));
}

#[test]
fn export_response_carries_schema_version_and_format() {
    let request = ExportRequest { format: ExportFormat::Csv };
    let resp = export_response(request, export_csv(&vec![item("apt:git", "git", "Git", "Apt")])).expect("export");
    assert_eq!(resp.schema_version, 1);
    assert_eq!(resp.format, ExportFormat::Csv);
    assert_eq!(resp.content.lines().count(), 2);
    assert!(resp.content.lines().nth(1).unwrap().starts_with("apt:git,git,Git"));
    let failed = export_response(ExportRequest { format: ExportFormat::Json }, Err(CommandError::internal("boom")));
    assert_eq!(failed.unwrap_err().message, "boom");
}

#[test]
fn csv_export_reads_back_as_header_and_one_record_per_item() {
    let mut tricky = item("apt:x", "x", "Say \"hi\", world", "Apt");
    tricky.version = Some("1.0\n2\r3".to_string());
    tricky.installed_size_bytes = Some(42);
    tricky.update_available = true;
    let items = vec![item("apt:git", "git", "Git", "Apt"), tricky, item("", "", "", "")];
    let content = export_csv(&items).expect("export");
    let mut reader = csv::ReaderBuilder::new().has_headers(false).from_reader(content.as_bytes());
    let records: Vec<Vec<String>> = reader
        .records()
        .map(|r| r.expect("record").iter().map(|f| f.to_string()).collect())
        .collect();
    assert_eq!(records.len(), items.len() + 1);
    assert_eq!(records[0].join(","), HEADER);
    assert_eq!(
        records[2],
        vec!["apt:x", "x", "Say \"hi\", world", "Unknown", "Apt", "System", "1.0\n2\r3", "42", "true", "Low"]
    );
    assert_eq!(records[3], vec!["", "", "", "Unknown", "", "System", "", "", "false", "Low"]);
    for r in &records {
        assert_eq!(r.len(), 10);
    }
}
