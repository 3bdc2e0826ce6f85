use multitool_backend::records::{
    CodeSnippet, CommandTemplate, Invoice, InvoiceItem, Note, PortfolioItem, S3Config, Settings,
};
use multitool_backend::store::Store;

fn fresh_store() -> Store {
    let store = Store::open_in_memory().unwrap();
    store.init().unwrap();
    store
}

#[test]
fn init_writes_default_settings() {
    let store = fresh_store();
    let s = store.get_settings().unwrap();
    assert_eq!(s.s3_config.bucket, "");
    assert_eq!(s.s3_config.region, "us-east-1");
    assert_eq!(s.s3_config.access_key_id, "");
    assert_eq!(s.s3_config.secret_access_key, "");
    assert_eq!(s.theme, "light");
    assert!(!s.auto_upload);
    assert_eq!(s.user_type, "normal");
}

#[test]
fn init_twice_keeps_single_settings_row() {
    let store = fresh_store();
    let mut s = store.get_settings().unwrap();
    s.theme = "dark".to_string();
    store.save_settings(&s).unwrap();
    store.init().unwrap();
    let again = store.get_settings().unwrap();
    assert_eq!(again.theme, "dark");
}

#[test]
fn settings_round_trip() {
    let store = fresh_store();
    let s = Settings {
        s3_config: S3Config {
            bucket: "my-bucket".to_string(),
            region: "eu-west-1".to_string(),
            access_key_id: "AK".to_string(),
            secret_access_key: "SK".to_string(),
        },
        theme: "dark".to_string(),
        auto_upload: true,
        user_type: "admin".to_string(),
    };
    store.save_settings(&s).unwrap();
    assert_eq!(store.get_settings().unwrap(), s);
}

fn a_note(title: &str) -> Note {
    Note {
        id: None,
        title: title.to_string(),
        content: "body".to_string(),
        category: "general".to_string(),
        created_at: String::new(),
        updated_at: String::new(),
    }
}

#[test]
fn note_insert_assigns_identity_and_stamps() {
    let store = fresh_store();
    let id = store.save_note(&a_note("First")).unwrap();
    assert_eq!(id, 1);
    let notes = store.get_notes().unwrap();
    assert_eq!(notes.len(), 1);
    assert_eq!(notes[0].id, Some(1));
    assert_eq!(notes[0].title, "First");
    assert_eq!(notes[0].content, "body");
    assert!(!notes[0].created_at.is_empty());
    assert_eq!(notes[0].created_at, notes[0].updated_at);
}

#[test]
fn note_update_keeps_identity() {
    let store = fresh_store();
    let id = store.save_note(&a_note("Old")).unwrap();
    let mut n = store.get_notes().unwrap().remove(0);
    n.title = "New".to_string();
    let id2 = store.save_note(&n).unwrap();
    assert_eq!(id2, id);
    let notes = store.get_notes().unwrap();
    assert_eq!(notes.len(), 1);
    assert_eq!(notes[0].title, "New");
}

#[test]
fn note_delete_removes_row() {
    let store = fresh_store();
    let id = store.save_note(&a_note("Gone")).unwrap();
    store.delete_note(id).unwrap();
    assert!(store.get_notes().unwrap().is_empty());
}

#[test]
fn invoice_round_trip_through_database() {
    let store = fresh_store();
    let inv = Invoice {
        id: None,
        invoice_number: "INV-001".to_string(),
        client_name: "Acme \"Widgets\"".to_string(),
        client_email: "billing@acme.example".to_string(),
        items: vec![
            InvoiceItem {
                description: "Design\nwork".to_string(),
                quantity: "2".to_string(),
                unit_price: "150.5".to_string(),
                total: "301".to_string(),
            },
            InvoiceItem {
                description: "Hosting".to_string(),
                quantity: "12".to_string(),
                unit_price: "9.99".to_string(),
                total: "119.88".to_string(),
            },
        ],
        subtotal: "420.88".to_string(),
        tax_rate: "0.2".to_string(),
        tax_amount: "84.176".to_string(),
        total: "505.056".to_string(),
        status: "draft".to_string(),
        due_date: "2024-02-01".to_string(),
        created_at: String::new(),
    };
    let id = store.save_invoice(&inv).unwrap();
    assert_eq!(id, 1);
    let fetched = store.get_invoices().unwrap().remove(0);
    assert_eq!(fetched.id, Some(1));
    assert_eq!(fetched.invoice_number, "INV-001");
    assert_eq!(fetched.client_name, "Acme \"Widgets\"");
    assert_eq!(fetched.items, inv.items);
    assert_eq!(fetched.subtotal, "420.88");
    assert_eq!(fetched.tax_rate, "0.2");
    assert_eq!(fetched.tax_amount, "84.176");
    assert_eq!(fetched.total, "505.056");
    assert_eq!(fetched.status, "draft");
    assert_eq!(fetched.due_date, "2024-02-01");
    assert!(!fetched.created_at.is_empty());
}

#[test]
fn invoice_update_keeps_identity_and_rewrites_items() {
    let store = fresh_store();
    let mut inv = Invoice {
        id: None,
        invoice_number: "INV-002".to_string(),
        client_name: "Client".to_string(),
        client_email: String::new(),
        items: Vec::new(),
        subtotal: "0".to_string(),
        tax_rate: "0".to_string(),
        tax_amount: "0".to_string(),
        total: "0".to_string(),
        status: "draft".to_string(),
        due_date: String::new(),
        created_at: String::new(),
    };
    let id = store.save_invoice(&inv).unwrap();
    inv.id = Some(id);
    inv.items = vec![InvoiceItem {
        description: "Extra".to_string(),
        quantity: "1".to_string(),
        unit_price: "5".to_string(),
        total: "5".to_string(),
    }];
    inv.status = "sent".to_string();
    let id2 = store.save_invoice(&inv).unwrap();
    assert_eq!(id2, id);
    let fetched = store.get_invoices().unwrap().remove(0);
    assert_eq!(fetched.items.len(), 1);
    assert_eq!(fetched.items[0].description, "Extra");
    assert_eq!(fetched.status, "sent");
}

#[test]
fn portfolio_round_trip_and_symbol_order() {
    let store = fresh_store();
    let item = |symbol: &str| PortfolioItem {
        id: None,
        symbol: symbol.to_string(),
        shares: "10.5".to_string(),
        avg_price: "99.9".to_string(),
        current_price: "120.25".to_string(),
        total_value: "1262.625".to_string(),
        gain_loss: "213.675".to_string(),
        gain_loss_percent: "20.35".to_string(),
        notes: "long term".to_string(),
    };
    store.save_portfolio_item(&item("MSFT")).unwrap();
    store.save_portfolio_item(&item("AAPL")).unwrap();
    let all = store.get_portfolio().unwrap();
    assert_eq!(all.len(), 2);
    assert_eq!(all[0].symbol, "AAPL");
    assert_eq!(all[1].symbol, "MSFT");
    assert_eq!(all[0].shares, "10.5");
    assert_eq!(all[0].total_value, "1262.625");
    assert_eq!(all[0].notes, "long term");
}

#[test]
fn portfolio_update_keeps_identity() {
    let store = fresh_store();
    let mut p = PortfolioItem {
        id: None,
        symbol: "AAPL".to_string(),
        shares: "1".to_string(),
        avg_price: "100".to_string(),
        current_price: "0".to_string(),
        total_value: "0".to_string(),
        gain_loss: "0".to_string(),
        gain_loss_percent: "0".to_string(),
        notes: String::new(),
    };
    let id = store.save_portfolio_item(&p).unwrap();
    p.id = Some(id);
    p.shares = "2".to_string();
    assert_eq!(store.save_portfolio_item(&p).unwrap(), id);
    let all = store.get_portfolio().unwrap();
    assert_eq!(all.len(), 1);
    assert_eq!(all[0].shares, "2");
}

#[test]
fn snippet_round_trip() {
    let store = fresh_store();
    let s = CodeSnippet {
        id: None,
        title: "hello".to_string(),
        description: "prints".to_string(),
        code: "fn main() { println!(\"hi\"); }".to_string(),
        language: "rust".to_string(),
        tags: "demo,intro".to_string(),
        created_at: String::new(),
        updated_at: String::new(),
    };
    let id = store.save_code_snippet(&s).unwrap();
    assert_eq!(id, 1);
    let all = store.get_code_snippets().unwrap();
    assert_eq!(all.len(), 1);
    assert_eq!(all[0].code, "fn main() { println!(\"hi\"); }");
    let mut again = all.into_iter().next().unwrap();
    again.language = "rs".to_string();
    assert_eq!(store.save_code_snippet(&again).unwrap(), id);
    assert_eq!(store.get_code_snippets().unwrap()[0].language, "rs");
}

#[test]
fn template_round_trip_keeps_stamp_on_update() {
    let store = fresh_store();
    let t = CommandTemplate {
        id: None,
        title: "list".to_string(),
        description: "list files".to_string(),
        command: "ls -la".to_string(),
        category: "shell".to_string(),
        tags: "files".to_string(),
        created_at: String::new(),
    };
    let id = store.save_command_template(&t).unwrap();
    let mut fetched = store.get_command_templates().unwrap().remove(0);
    let stamp = fetched.created_at.clone();
    assert!(!stamp.is_empty());
    fetched.command = "ls -l".to_string();
    assert_eq!(store.save_command_template(&fetched).unwrap(), id);
    let again = store.get_command_templates().unwrap().remove(0);
    assert_eq!(again.command, "ls -l");
    assert_eq!(again.created_at, stamp);
}
