use multitool_backend::records::{Note, SqlValue, Settings, S3Config};
use multitool_backend::rows::{
    id_params, note_from_row, note_insert_params, note_update_params, settings_default_params,
    settings_from_row, settings_update_params, invoice_from_row,
};

fn text(s: &str) -> SqlValue {
    SqlValue::Text(s.to_string())
}

#[test]
fn note_row_maps_fields() {
    let row = vec![
        SqlValue::Int(7),
        text("Title"),
        text("Body"),
        text("general"),
        text("2024-01-01T00:00:00+00:00"),
        text("2024-01-02T00:00:00+00:00"),
    ];
    let n = note_from_row(&row).unwrap();
    assert_eq!(n.id, Some(7));
    assert_eq!(n.title, "Title");
    assert_eq!(n.content, "Body");
    assert_eq!(n.category, "general");
    assert_eq!(n.created_at, "2024-01-01T00:00:00+00:00");
    assert_eq!(n.updated_at, "2024-01-02T00:00:00+00:00");
}

#[test]
fn note_row_without_id() {
    let row = vec![SqlValue::Null, text("T"), text("C"), text("g"), text("a"), text("b")];
    let n = note_from_row(&row).unwrap();
    assert_eq!(n.id, None);
}

#[test]
fn note_row_rejects_wrong_shape() {
    assert_eq!(note_from_row(&vec![]), None);
    let short = vec![SqlValue::Int(1), text("T")];
    assert_eq!(note_from_row(&short), None);
    let wrong = vec![SqlValue::Int(1), SqlValue::Int(2), text("C"), text("g"), text("a"), text("b")];
    assert_eq!(note_from_row(&wrong), None);
    let null_title = vec![SqlValue::Int(1), SqlValue::Null, text("C"), text("g"), text("a"), text("b")];
    assert_eq!(note_from_row(&null_title), None);
}

#[test]
fn note_row_rejects_overflowing_id() {
    let row = vec![
        SqlValue::Int(i64::from(i32::MAX) + 1),
        text("T"),
        text("C"),
        text("g"),
        text("a"),
        text("b"),
    ];
    assert_eq!(note_from_row(&row), None);
}

#[test]
fn note_params_exact() {
    let n = Note {
        id: None,
        title: "T".to_string(),
        content: "C".to_string(),
        category: "g".to_string(),
        created_at: String::new(),
        updated_at: String::new(),
    };
    assert_eq!(
        note_insert_params(&n, "NOW"),
        vec![text("T"), text("C"), text("g"), text("NOW"), text("NOW")]
    );
    assert_eq!(
        note_update_params(&n, "NOW", 4),
        vec![text("T"), text("C"), text("g"), text("NOW"), SqlValue::Int(4)]
    );
    assert_eq!(id_params(9), vec![SqlValue::Int(9)]);
}

#[test]
fn settings_row_and_params() {
    let row = vec![
        text("bucket"),
        text("us-east-1"),
        text("AK"),
        text("SK"),
        text("dark"),
        SqlValue::Int(1),
        text("admin"),
    ];
    let s = settings_from_row(&row).unwrap();
    assert_eq!(s.s3_config.bucket, "bucket");
    assert_eq!(s.s3_config.region, "us-east-1");
    assert_eq!(s.s3_config.access_key_id, "AK");
    assert_eq!(s.s3_config.secret_access_key, "SK");
    assert_eq!(s.theme, "dark");
    assert!(s.auto_upload);
    assert_eq!(s.user_type, "admin");
    let back = settings_update_params(&s);
    assert_eq!(back, row);
}

#[test]
fn settings_flag_reads_zero_as_clear() {
    let row = vec![
        text(""),
        text(""),
        text(""),
        text(""),
        text("light"),
        SqlValue::Int(0),
        text("normal"),
    ];
    let s = settings_from_row(&row).unwrap();
    assert!(!s.auto_upload);
}

#[test]
fn settings_row_rejects_text_flag() {
    let row = vec![
        text(""),
        text(""),
        text(""),
        text(""),
        text("light"),
        text("yes"),
        text("normal"),
    ];
    assert_eq!(settings_from_row(&row), None);
}

#[test]
fn default_settings_params_exact() {
    let p = settings_default_params();
    assert_eq!(
        p,
        vec![
            text(""),
            text("us-east-1"),
            text(""),
            text(""),
            text("light"),
            SqlValue::Int(0),
            text("normal"),
        ]
    );
}

#[test]
fn settings_update_params_encode_flag() {
    let s = Settings {
        s3_config: S3Config {
            bucket: String::new(),
            region: String::new(),
            access_key_id: String::new(),
            secret_access_key: String::new(),
        },
        theme: "light".to_string(),
        auto_upload: false,
        user_type: "normal".to_string(),
    };
    let p = settings_update_params(&s);
    assert_eq!(p[5], SqlValue::Int(0));
}

#[test]
fn invoice_row_bad_items_text_yields_empty_list() {
    let row = vec![
        SqlValue::Int(1),
        text("INV-1"),
        text("Client"),
        text("c@example.com"),
        text("this is not the items encoding"),
        SqlValue::Real("100".to_string()),
        SqlValue::Real("0.2".to_string()),
        SqlValue::Real("20".to_string()),
        SqlValue::Real("120".to_string()),
        text("draft"),
        text("2024-02-01"),
        text("2024-01-01"),
    ];
    let inv = invoice_from_row(&row).unwrap();
    assert!(inv.items.is_empty());
    assert_eq!(inv.subtotal, "100");
    assert_eq!(inv.total, "120");
}

#[test]
fn invoice_row_rejects_text_amount() {
    let row = vec![
        SqlValue::Int(1),
        text("INV-1"),
        text("Client"),
        text("c@example.com"),
        text("[]"),
        text("100"),
        SqlValue::Real("0.2".to_string()),
        SqlValue::Real("20".to_string()),
        SqlValue::Real("120".to_string()),
        text("draft"),
        text("2024-02-01"),
        text("2024-01-01"),
    ];
    assert_eq!(invoice_from_row(&row), None);
}
