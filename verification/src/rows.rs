use vstd::prelude::*;
use crate::records::{
    SqlValue, SqlValueModel, row_model, Settings, Note, Invoice, PortfolioItem, CodeSnippet,
    CommandTemplate, ItemModel, items_model,
};
use crate::json::{encode_items, wf_items, items_from_json};

verus! {

// ------------------------------------------------------------------
// Reading records out of rows, and building the parameter lists that
// writes hand to the database. Every function here is total over the
// values it is given: a row of the wrong shape is rejected, and the
// contracts say exactly which shapes are accepted and what comes out.
// ------------------------------------------------------------------
/// May this cell stand for an optional row identity?
pub open spec fn opt_id_ok(v: SqlValueModel) -> bool {
    match v {
        SqlValueModel::Null => true,
        SqlValueModel::Int(i) => i32::MIN as int <= i as int <= i32::MAX as int,
        _ => false,
    }
}

/// The optional row identity a cell stands for.
pub open spec fn opt_id_of(v: SqlValueModel) -> Option<i32> {
    match v {
        SqlValueModel::Int(i) => Some(i as i32),
        _ => None,
    }
}

/// The text a cell carries (empty when it is not text).
pub open spec fn text_of(v: SqlValueModel) -> Seq<char> {
    match v {
        SqlValueModel::Text(t) => t,
        _ => Seq::empty(),
    }
}

/// The decimal text of a numeric cell (empty when it is not numeric).
pub open spec fn real_text_of(v: SqlValueModel) -> Seq<char> {
    match v {
        SqlValueModel::Real(t) => t,
        _ => Seq::empty(),
    }
}

/// The flag an integer cell stands for: zero is clear, anything else set.
pub open spec fn bool_of(v: SqlValueModel) -> bool {
    match v {
        SqlValueModel::Int(i) => i != 0,
        _ => false,
    }
}

/// Read an optional identity out of a cell.
fn read_opt_id(v: &SqlValue) -> (r: Option<Option<i32>>)
    ensures
        r is Some <==> opt_id_ok(v@),
        r matches Some(id) ==> id == opt_id_of(v@),
{
    match v {
        SqlValue::Null => Some(None),
        SqlValue::Int(i) => {
            let iv = *i;
            if iv < i32::MIN as i64 || iv > i32::MAX as i64 {
                None
            } else {
                Some(Some(iv as i32))
            }
        },
        _ => None,
    }
}

/// Read the text of a cell.
fn read_text(v: &SqlValue) -> (r: Option<String>)
    ensures
        r is Some <==> v@ is Text,
        r matches Some(s) ==> s@ == text_of(v@),
{
    match v {
        SqlValue::Text(s) => Some(s.clone()),
        _ => None,
    }
}

/// Read the decimal text of a numeric cell.
fn read_real_text(v: &SqlValue) -> (r: Option<String>)
    ensures
        r is Some <==> v@ is Real,
        r matches Some(s) ==> s@ == real_text_of(v@),
{
    match v {
        SqlValue::Real(s) => Some(s.clone()),
        _ => None,
    }
}

// ------------------------------------------------------------------
// Settings
// ------------------------------------------------------------------
/// The shape of a settings row: four key texts, the theme, the upload
/// flag as an integer, and the user type.
pub open spec fn settings_row_ok(m: Seq<SqlValueModel>) -> bool {
    &&& m.len() == 7
    &&& m[0] is Text
    &&& m[1] is Text
    &&& m[2] is Text
    &&& m[3] is Text
    &&& m[4] is Text
    &&& m[5] is Int
    &&& m[6] is Text
}

/// The settings record a well-shaped settings row stands for.
pub open spec fn settings_of_row(s: Settings, m: Seq<SqlValueModel>) -> bool {
    &&& settings_row_ok(m)
    &&& s.s3_config.bucket@ == text_of(m[0])
    &&& s.s3_config.region@ == text_of(m[1])
    &&& s.s3_config.access_key_id@ == text_of(m[2])
    &&& s.s3_config.secret_access_key@ == text_of(m[3])
    &&& s.theme@ == text_of(m[4])
    &&& s.auto_upload == bool_of(m[5])
    &&& s.user_type@ == text_of(m[6])
}

/// Map a settings row to the settings record.
pub fn settings_from_row(row: &Vec<SqlValue>) -> (r: Option<Settings>)
    ensures
        r is Some <==> settings_row_ok(row_model(row@)),
        r matches Some(s) ==> settings_of_row(s, row_model(row@)),
{
    if row.len() != 7 {
        return None;
    }
    let bucket = match read_text(&row[0]) {
        Some(s) => s,
        None => { return None; },
    };
    let region = match read_text(&row[1]) {
        Some(s) => s,
        None => { return None; },
    };
    let access_key_id = match read_text(&row[2]) {
        Some(s) => s,
        None => { return None; },
    };
    let secret_access_key = match read_text(&row[3]) {
        Some(s) => s,
        None => { return None; },
    };
    let theme = match read_text(&row[4]) {
        Some(s) => s,
        None => { return None; },
    };
    let auto_upload = match &row[5] {
        SqlValue::Int(i) => *i != 0,
        _ => { return None; },
    };
    let user_type = match read_text(&row[6]) {
        Some(s) => s,
        None => { return None; },
    };
    Some(
        Settings {
            s3_config: crate::records::S3Config { bucket, region, access_key_id, secret_access_key },
            theme,
            auto_upload,
            user_type,
        },
    )
}

/// The parameter list of the settings update statement.
pub fn settings_update_params(s: &Settings) -> (r: Vec<SqlValue>)
    ensures
        row_model(r@) == seq![
            SqlValueModel::Text(s.s3_config.bucket@),
            SqlValueModel::Text(s.s3_config.region@),
            SqlValueModel::Text(s.s3_config.access_key_id@),
            SqlValueModel::Text(s.s3_config.secret_access_key@),
            SqlValueModel::Text(s.theme@),
            SqlValueModel::Int(if s.auto_upload { 1i64 } else { 0i64 }),
            SqlValueModel::Text(s.user_type@),
        ],
{
    let mut r: Vec<SqlValue> = Vec::new();
    r.push(SqlValue::Text(s.s3_config.bucket.clone()));
    r.push(SqlValue::Text(s.s3_config.region.clone()));
    r.push(SqlValue::Text(s.s3_config.access_key_id.clone()));
    r.push(SqlValue::Text(s.s3_config.secret_access_key.clone()));
    r.push(SqlValue::Text(s.theme.clone()));
    r.push(SqlValue::Int(if s.auto_upload { 1 } else { 0 }));
    r.push(SqlValue::Text(s.user_type.clone()));
    proof {
        assert(row_model(r@) =~= seq![
            SqlValueModel::Text(s.s3_config.bucket@),
            SqlValueModel::Text(s.s3_config.region@),
            SqlValueModel::Text(s.s3_config.access_key_id@),
            SqlValueModel::Text(s.s3_config.secret_access_key@),
            SqlValueModel::Text(s.theme@),
            SqlValueModel::Int(if s.auto_upload { 1i64 } else { 0i64 }),
            SqlValueModel::Text(s.user_type@),
        ]);
    }
    r
}

/// The parameter list of the first settings row ever written: empty
/// keys, the light theme, uploads off, a normal user.
pub fn settings_default_params() -> (r: Vec<SqlValue>)
    ensures
        row_model(r@) == seq![
            SqlValueModel::Text(""@),
            SqlValueModel::Text("us-east-1"@),
            SqlValueModel::Text(""@),
            SqlValueModel::Text(""@),
            SqlValueModel::Text("light"@),
            SqlValueModel::Int(0i64),
            SqlValueModel::Text("normal"@),
        ],
{
    let mut r: Vec<SqlValue> = Vec::new();
    r.push(SqlValue::Text(String::new()));
    r.push(SqlValue::Text("us-east-1".to_owned()));
    r.push(SqlValue::Text(String::new()));
    r.push(SqlValue::Text(String::new()));
    r.push(SqlValue::Text("light".to_owned()));
    r.push(SqlValue::Int(0));
    r.push(SqlValue::Text("normal".to_owned()));
    proof {
        reveal_strlit("");
        assert(""@ =~= Seq::<char>::empty());
        assert(row_model(r@) =~~= seq![
            SqlValueModel::Text(""@),
            SqlValueModel::Text("us-east-1"@),
            SqlValueModel::Text(""@),
            SqlValueModel::Text(""@),
            SqlValueModel::Text("light"@),
            SqlValueModel::Int(0i64),
            SqlValueModel::Text("normal"@),
        ]);
    }
    r
}

// ------------------------------------------------------------------
// Notes
// ------------------------------------------------------------------
/// The shape of a note row.
pub open spec fn note_row_ok(m: Seq<SqlValueModel>) -> bool {
    &&& m.len() == 6
    &&& opt_id_ok(m[0])
    &&& m[1] is Text
    &&& m[2] is Text
    &&& m[3] is Text
    &&& m[4] is Text
    &&& m[5] is Text
}

/// The note record a well-shaped note row stands for.
pub open spec fn note_of_row(n: Note, m: Seq<SqlValueModel>) -> bool {
    &&& note_row_ok(m)
    &&& n.id == opt_id_of(m[0])
    &&& n.title@ == text_of(m[1])
    &&& n.content@ == text_of(m[2])
    &&& n.category@ == text_of(m[3])
    &&& n.created_at@ == text_of(m[4])
    &&& n.updated_at@ == text_of(m[5])
}

/// Map a note row to the note record.
pub fn note_from_row(row: &Vec<SqlValue>) -> (r: Option<Note>)
    ensures
        r is Some <==> note_row_ok(row_model(row@)),
        r matches Some(n) ==> note_of_row(n, row_model(row@)),
{
    if row.len() != 6 {
        return None;
    }
    let id = match read_opt_id(&row[0]) {
        Some(i) => i,
        None => { return None; },
    };
    let title = match read_text(&row[1]) {
        Some(s) => s,
        None => { return None; },
    };
    let content = match read_text(&row[2]) {
        Some(s) => s,
        None => { return None; },
    };
    let category = match read_text(&row[3]) {
        Some(s) => s,
        None => { return None; },
    };
    let created_at = match read_text(&row[4]) {
        Some(s) => s,
        None => { return None; },
    };
    let updated_at = match read_text(&row[5]) {
        Some(s) => s,
        None => { return None; },
    };
    Some(Note { id, title, content, category, created_at, updated_at })
}

/// The parameter list of the note insert statement: both stamps are the
/// moment of the write.
pub fn note_insert_params(n: &Note, now: &str) -> (r: Vec<SqlValue>)
    ensures
        row_model(r@) == seq![
            SqlValueModel::Text(n.title@),
            SqlValueModel::Text(n.content@),
            SqlValueModel::Text(n.category@),
            SqlValueModel::Text(now@),
            SqlValueModel::Text(now@),
        ],
{
    let mut r: Vec<SqlValue> = Vec::new();
    r.push(SqlValue::Text(n.title.clone()));
    r.push(SqlValue::Text(n.content.clone()));
    r.push(SqlValue::Text(n.category.clone()));
    r.push(SqlValue::Text(now.to_owned()));
    r.push(SqlValue::Text(now.to_owned()));
    proof {
        assert(row_model(r@) =~= seq![
            SqlValueModel::Text(n.title@),
            SqlValueModel::Text(n.content@),
            SqlValueModel::Text(n.category@),
            SqlValueModel::Text(now@),
            SqlValueModel::Text(now@),
        ]);
    }
    r
}

/// The parameter list of the note update statement: the given row is
/// retitled, refilled and restamped.
pub fn note_update_params(n: &Note, now: &str, id: i32) -> (r: Vec<SqlValue>)
    ensures
        row_model(r@) == seq![
            SqlValueModel::Text(n.title@),
            SqlValueModel::Text(n.content@),
            SqlValueModel::Text(n.category@),
            SqlValueModel::Text(now@),
            SqlValueModel::Int(id as i64),
        ],
{
    let mut r: Vec<SqlValue> = Vec::new();
    r.push(SqlValue::Text(n.title.clone()));
    r.push(SqlValue::Text(n.content.clone()));
    r.push(SqlValue::Text(n.category.clone()));
    r.push(SqlValue::Text(now.to_owned()));
    r.push(SqlValue::Int(id as i64));
    proof {
        assert(row_model(r@) =~= seq![
            SqlValueModel::Text(n.title@),
            SqlValueModel::Text(n.content@),
            SqlValueModel::Text(n.category@),
            SqlValueModel::Text(now@),
            SqlValueModel::Int(id as i64),
        ]);
    }
    r
}

/// The single parameter of a delete by identity.
pub fn id_params(id: i32) -> (r: Vec<SqlValue>)
    ensures
        row_model(r@) == seq![SqlValueModel::Int(id as i64)],
{
    let mut r: Vec<SqlValue> = Vec::new();
    r.push(SqlValue::Int(id as i64));
    proof {
        assert(row_model(r@) =~= seq![SqlValueModel::Int(id as i64)]);
    }
    r
}

// ------------------------------------------------------------------
// Invoices
// ------------------------------------------------------------------
/// The shape of an invoice row: texts, the JSON text of the line items,
/// and four numeric amounts.
pub open spec fn invoice_row_ok(m: Seq<SqlValueModel>) -> bool {
    &&& m.len() == 12
    &&& opt_id_ok(m[0])
    &&& m[1] is Text
    &&& m[2] is Text
    &&& m[3] is Text
    &&& m[4] is Text
    &&& m[5] is Real
    &&& m[6] is Real
    &&& m[7] is Real
    &&& m[8] is Real
    &&& m[9] is Text
    &&& m[10] is Text
    &&& m[11] is Text
}

/// The invoice record a well-shaped invoice row stands for: its items
/// are the decode of the row's items text, so the text determines them
/// completely — a text that encodes some well-formed list yields that
/// list and no other, and any other text yields the empty list, as a
/// store that predates the items column would.
pub open spec fn invoice_of_row(inv: Invoice, m: Seq<SqlValueModel>) -> bool {
    &&& invoice_row_ok(m)
    &&& inv.id == opt_id_of(m[0])
    &&& inv.invoice_number@ == text_of(m[1])
    &&& inv.client_name@ == text_of(m[2])
    &&& inv.client_email@ == text_of(m[3])
    &&& (text_of(m[4]) == encode_items(items_model(inv.items@)) && wf_items(
        items_model(inv.items@),
    )) || inv.items@.len() == 0
    &&& forall|v: Seq<ItemModel>|
        wf_items(v) && text_of(m[4]) == #[trigger] encode_items(v) ==> items_model(inv.items@)
            == v
    &&& inv.subtotal@ == real_text_of(m[5])
    &&& inv.tax_rate@ == real_text_of(m[6])
    &&& inv.tax_amount@ == real_text_of(m[7])
    &&& inv.total@ == real_text_of(m[8])
    &&& inv.status@ == text_of(m[9])
    &&& inv.due_date@ == text_of(m[10])
    &&& inv.created_at@ == text_of(m[11])
}

/// Map an invoice row to the invoice record, its items decoded from the
/// row's items text.
pub fn invoice_from_row(row: &Vec<SqlValue>) -> (r: Option<Invoice>)
    ensures
        r is Some <==> invoice_row_ok(row_model(row@)),
        r matches Some(inv) ==> invoice_of_row(inv, row_model(row@)),
{
    if row.len() != 12 {
        return None;
    }
    let id = match read_opt_id(&row[0]) {
        Some(i) => i,
        None => { return None; },
    };
    let invoice_number = match read_text(&row[1]) {
        Some(s) => s,
        None => { return None; },
    };
    let client_name = match read_text(&row[2]) {
        Some(s) => s,
        None => { return None; },
    };
    let client_email = match read_text(&row[3]) {
        Some(s) => s,
        None => { return None; },
    };
    let items_json = match read_text(&row[4]) {
        Some(s) => s,
        None => { return None; },
    };
    let items = match items_from_json(items_json.as_str()) {
        Some(v) => v,
        None => Vec::new(),
    };
    proof {
        assert forall|v: Seq<ItemModel>|
            wf_items(v) && text_of(row_model(row@)[4]) == #[trigger] encode_items(
                v,
            ) implies items_model(items@) == v by {
            assert(items_json@ == text_of(row_model(row@)[4]));
        }
    }
    let subtotal = match read_real_text(&row[5]) {
        Some(s) => s,
        None => { return None; },
    };
    let tax_rate = match read_real_text(&row[6]) {
        Some(s) => s,
        None => { return None; },
    };
    let tax_amount = match read_real_text(&row[7]) {
        Some(s) => s,
        None => { return None; },
    };
    let total = match read_real_text(&row[8]) {
        Some(s) => s,
        None => { return None; },
    };
    let status = match read_text(&row[9]) {
        Some(s) => s,
        None => { return None; },
    };
    let due_date = match read_text(&row[10]) {
        Some(s) => s,
        None => { return None; },
    };
    let created_at = match read_text(&row[11]) {
        Some(s) => s,
        None => { return None; },
    };
    Some(
        Invoice {
            id,
            invoice_number,
            client_name,
            client_email,
            items,
            subtotal,
            tax_rate,
            tax_amount,
            total,
            status,
            due_date,
            created_at,
        },
    )
}

/// The parameter list of the invoice insert statement. The caller hands
/// in the already rendered JSON of the line items and the stamp.
pub fn invoice_insert_params(inv: &Invoice, items_json: &str, now: &str) -> (r: Vec<SqlValue>)
    ensures
        row_model(r@) == seq![
            SqlValueModel::Text(inv.invoice_number@),
            SqlValueModel::Text(inv.client_name@),
            SqlValueModel::Text(inv.client_email@),
            SqlValueModel::Text(items_json@),
            SqlValueModel::Real(inv.subtotal@),
            SqlValueModel::Real(inv.tax_rate@),
            SqlValueModel::Real(inv.tax_amount@),
            SqlValueModel::Real(inv.total@),
            SqlValueModel::Text(inv.status@),
            SqlValueModel::Text(inv.due_date@),
            SqlValueModel::Text(now@),
        ],
{
    let mut r: Vec<SqlValue> = Vec::new();
    r.push(SqlValue::Text(inv.invoice_number.clone()));
    r.push(SqlValue::Text(inv.client_name.clone()));
    r.push(SqlValue::Text(inv.client_email.clone()));
    r.push(SqlValue::Text(items_json.to_owned()));
    r.push(SqlValue::Real(inv.subtotal.clone()));
    r.push(SqlValue::Real(inv.tax_rate.clone()));
    r.push(SqlValue::Real(inv.tax_amount.clone()));
    r.push(SqlValue::Real(inv.total.clone()));
    r.push(SqlValue::Text(inv.status.clone()));
    r.push(SqlValue::Text(inv.due_date.clone()));
    r.push(SqlValue::Text(now.to_owned()));
    proof {
        assert(row_model(r@) =~= seq![
            SqlValueModel::Text(inv.invoice_number@),
            SqlValueModel::Text(inv.client_name@),
            SqlValueModel::Text(inv.client_email@),
            SqlValueModel::Text(items_json@),
            SqlValueModel::Real(inv.subtotal@),
            SqlValueModel::Real(inv.tax_rate@),
            SqlValueModel::Real(inv.tax_amount@),
            SqlValueModel::Real(inv.total@),
            SqlValueModel::Text(inv.status@),
            SqlValueModel::Text(inv.due_date@),
            SqlValueModel::Text(now@),
        ]);
    }
    r
}

/// The parameter list of the invoice update statement.
pub fn invoice_update_params(inv: &Invoice, items_json: &str, id: i32) -> (r: Vec<SqlValue>)
    ensures
        row_model(r@) == seq![
            SqlValueModel::Text(inv.invoice_number@),
            SqlValueModel::Text(inv.client_name@),
            SqlValueModel::Text(inv.client_email@),
            SqlValueModel::Text(items_json@),
            SqlValueModel::Real(inv.subtotal@),
            SqlValueModel::Real(inv.tax_rate@),
            SqlValueModel::Real(inv.tax_amount@),
            SqlValueModel::Real(inv.total@),
            SqlValueModel::Text(inv.status@),
            SqlValueModel::Text(inv.due_date@),
            SqlValueModel::Int(id as i64),
        ],
{
    let mut r: Vec<SqlValue> = Vec::new();
    r.push(SqlValue::Text(inv.invoice_number.clone()));
    r.push(SqlValue::Text(inv.client_name.clone()));
    r.push(SqlValue::Text(inv.client_email.clone()));
    r.push(SqlValue::Text(items_json.to_owned()));
    r.push(SqlValue::Real(inv.subtotal.clone()));
    r.push(SqlValue::Real(inv.tax_rate.clone()));
    r.push(SqlValue::Real(inv.tax_amount.clone()));
    r.push(SqlValue::Real(inv.total.clone()));
    r.push(SqlValue::Text(inv.status.clone()));
    r.push(SqlValue::Text(inv.due_date.clone()));
    r.push(SqlValue::Int(id as i64));
    proof {
        assert(row_model(r@) =~= seq![
            SqlValueModel::Text(inv.invoice_number@),
            SqlValueModel::Text(inv.client_name@),
            SqlValueModel::Text(inv.client_email@),
            SqlValueModel::Text(items_json@),
            SqlValueModel::Real(inv.subtotal@),
            SqlValueModel::Real(inv.tax_rate@),
            SqlValueModel::Real(inv.tax_amount@),
            SqlValueModel::Real(inv.total@),
            SqlValueModel::Text(inv.status@),
            SqlValueModel::Text(inv.due_date@),
            SqlValueModel::Int(id as i64),
        ]);
    }
    r
}

// ------------------------------------------------------------------
// Portfolio
// ------------------------------------------------------------------
/// The shape of a portfolio row: the symbol, six numeric figures, and
/// the free-form notes.
pub open spec fn portfolio_row_ok(m: Seq<SqlValueModel>) -> bool {
    &&& m.len() == 9
    &&& opt_id_ok(m[0])
    &&& m[1] is Text
    &&& m[2] is Real
    &&& m[3] is Real
    &&& m[4] is Real
    &&& m[5] is Real
    &&& m[6] is Real
    &&& m[7] is Real
    &&& m[8] is Text
}

/// The portfolio record a well-shaped portfolio row stands for.
pub open spec fn portfolio_of_row(p: PortfolioItem, m: Seq<SqlValueModel>) -> bool {
    &&& portfolio_row_ok(m)
    &&& p.id == opt_id_of(m[0])
    &&& p.symbol@ == text_of(m[1])
    &&& p.shares@ == real_text_of(m[2])
    &&& p.avg_price@ == real_text_of(m[3])
    &&& p.current_price@ == real_text_of(m[4])
    &&& p.total_value@ == real_text_of(m[5])
    &&& p.gain_loss@ == real_text_of(m[6])
    &&& p.gain_loss_percent@ == real_text_of(m[7])
    &&& p.notes@ == text_of(m[8])
}

/// Map a portfolio row to the portfolio record.
pub fn portfolio_from_row(row: &Vec<SqlValue>) -> (r: Option<PortfolioItem>)
    ensures
        r is Some <==> portfolio_row_ok(row_model(row@)),
        r matches Some(p) ==> portfolio_of_row(p, row_model(row@)),
{
    if row.len() != 9 {
        return None;
    }
    let id = match read_opt_id(&row[0]) {
        Some(i) => i,
        None => { return None; },
    };
    let symbol = match read_text(&row[1]) {
        Some(s) => s,
        None => { return None; },
    };
    let shares = match read_real_text(&row[2]) {
        Some(s) => s,
        None => { return None; },
    };
    let avg_price = match read_real_text(&row[3]) {
        Some(s) => s,
        None => { return None; },
    };
    let current_price = match read_real_text(&row[4]) {
        Some(s) => s,
        None => { return None; },
    };
    let total_value = match read_real_text(&row[5]) {
        Some(s) => s,
        None => { return None; },
    };
    let gain_loss = match read_real_text(&row[6]) {
        Some(s) => s,
        None => { return None; },
    };
    let gain_loss_percent = match read_real_text(&row[7]) {
        Some(s) => s,
        None => { return None; },
    };
    let notes = match read_text(&row[8]) {
        Some(s) => s,
        None => { return None; },
    };
    Some(
        PortfolioItem {
            id,
            symbol,
            shares,
            avg_price,
            current_price,
            total_value,
            gain_loss,
            gain_loss_percent,
            notes,
        },
    )
}

/// The parameter list of the portfolio insert statement.
pub fn portfolio_insert_params(p: &PortfolioItem) -> (r: Vec<SqlValue>)
    ensures
        row_model(r@) == seq![
            SqlValueModel::Text(p.symbol@),
            SqlValueModel::Real(p.shares@),
            SqlValueModel::Real(p.avg_price@),
            SqlValueModel::Real(p.current_price@),
            SqlValueModel::Real(p.total_value@),
            SqlValueModel::Real(p.gain_loss@),
            SqlValueModel::Real(p.gain_loss_percent@),
            SqlValueModel::Text(p.notes@),
        ],
{
    let mut r: Vec<SqlValue> = Vec::new();
    r.push(SqlValue::Text(p.symbol.clone()));
    r.push(SqlValue::Real(p.shares.clone()));
    r.push(SqlValue::Real(p.avg_price.clone()));
    r.push(SqlValue::Real(p.current_price.clone()));
    r.push(SqlValue::Real(p.total_value.clone()));
    r.push(SqlValue::Real(p.gain_loss.clone()));
    r.push(SqlValue::Real(p.gain_loss_percent.clone()));
    r.push(SqlValue::Text(p.notes.clone()));
    proof {
        assert(row_model(r@) =~= seq![
            SqlValueModel::Text(p.symbol@),
            SqlValueModel::Real(p.shares@),
            SqlValueModel::Real(p.avg_price@),
            SqlValueModel::Real(p.current_price@),
            SqlValueModel::Real(p.total_value@),
            SqlValueModel::Real(p.gain_loss@),
            SqlValueModel::Real(p.gain_loss_percent@),
            SqlValueModel::Text(p.notes@),
        ]);
    }
    r
}

/// The parameter list of the portfolio update statement.
pub fn portfolio_update_params(p: &PortfolioItem, id: i32) -> (r: Vec<SqlValue>)
    ensures
        row_model(r@) == seq![
            SqlValueModel::Text(p.symbol@),
            SqlValueModel::Real(p.shares@),
            SqlValueModel::Real(p.avg_price@),
            SqlValueModel::Real(p.current_price@),
            SqlValueModel::Real(p.total_value@),
            SqlValueModel::Real(p.gain_loss@),
            SqlValueModel::Real(p.gain_loss_percent@),
            SqlValueModel::Text(p.notes@),
            SqlValueModel::Int(id as i64),
        ],
{
    let mut r: Vec<SqlValue> = Vec::new();
    r.push(SqlValue::Text(p.symbol.clone()));
    r.push(SqlValue::Real(p.shares.clone()));
    r.push(SqlValue::Real(p.avg_price.clone()));
    r.push(SqlValue::Real(p.current_price.clone()));
    r.push(SqlValue::Real(p.total_value.clone()));
    r.push(SqlValue::Real(p.gain_loss.clone()));
    r.push(SqlValue::Real(p.gain_loss_percent.clone()));
    r.push(SqlValue::Text(p.notes.clone()));
    r.push(SqlValue::Int(id as i64));
    proof {
        assert(row_model(r@) =~= seq![
            SqlValueModel::Text(p.symbol@),
            SqlValueModel::Real(p.shares@),
            SqlValueModel::Real(p.avg_price@),
            SqlValueModel::Real(p.current_price@),
            SqlValueModel::Real(p.total_value@),
            SqlValueModel::Real(p.gain_loss@),
            SqlValueModel::Real(p.gain_loss_percent@),
            SqlValueModel::Text(p.notes@),
            SqlValueModel::Int(id as i64),
        ]);
    }
    r
}

// ------------------------------------------------------------------
// Code snippets
// ------------------------------------------------------------------
/// The shape of a code snippet row.
pub open spec fn snippet_row_ok(m: Seq<SqlValueModel>) -> bool {
    &&& m.len() == 8
    &&& opt_id_ok(m[0])
    &&& m[1] is Text
    &&& m[2] is Text
    &&& m[3] is Text
    &&& m[4] is Text
    &&& m[5] is Text
    &&& m[6] is Text
    &&& m[7] is Text
}

/// The snippet record a well-shaped code snippet row stands for.
pub open spec fn snippet_of_row(s: CodeSnippet, m: Seq<SqlValueModel>) -> bool {
    &&& snippet_row_ok(m)
    &&& s.id == opt_id_of(m[0])
    &&& s.title@ == text_of(m[1])
    &&& s.description@ == text_of(m[2])
    &&& s.code@ == text_of(m[3])
    &&& s.language@ == text_of(m[4])
    &&& s.tags@ == text_of(m[5])
    &&& s.created_at@ == text_of(m[6])
    &&& s.updated_at@ == text_of(m[7])
}

/// Map a code snippet row to the snippet record.
pub fn snippet_from_row(row: &Vec<SqlValue>) -> (r: Option<CodeSnippet>)
    ensures
        r is Some <==> snippet_row_ok(row_model(row@)),
        r matches Some(s) ==> snippet_of_row(s, row_model(row@)),
{
    if row.len() != 8 {
        return None;
    }
    let id = match read_opt_id(&row[0]) {
        Some(i) => i,
        None => { return None; },
    };
    let title = match read_text(&row[1]) {
        Some(s) => s,
        None => { return None; },
    };
    let description = match read_text(&row[2]) {
        Some(s) => s,
        None => { return None; },
    };
    let code = match read_text(&row[3]) {
        Some(s) => s,
        None => { return None; },
    };
    let language = match read_text(&row[4]) {
        Some(s) => s,
        None => { return None; },
    };
    let tags = match read_text(&row[5]) {
        Some(s) => s,
        None => { return None; },
    };
    let created_at = match read_text(&row[6]) {
        Some(s) => s,
        None => { return None; },
    };
    let updated_at = match read_text(&row[7]) {
        Some(s) => s,
        None => { return None; },
    };
    Some(CodeSnippet { id, title, description, code, language, tags, created_at, updated_at })
}

/// The parameter list of the snippet insert statement.
pub fn snippet_insert_params(s: &CodeSnippet, now: &str) -> (r: Vec<SqlValue>)
    ensures
        row_model(r@) == seq![
            SqlValueModel::Text(s.title@),
            SqlValueModel::Text(s.description@),
            SqlValueModel::Text(s.code@),
            SqlValueModel::Text(s.language@),
            SqlValueModel::Text(s.tags@),
            SqlValueModel::Text(now@),
            SqlValueModel::Text(now@),
        ],
{
    let mut r: Vec<SqlValue> = Vec::new();
    r.push(SqlValue::Text(s.title.clone()));
    r.push(SqlValue::Text(s.description.clone()));
    r.push(SqlValue::Text(s.code.clone()));
    r.push(SqlValue::Text(s.language.clone()));
    r.push(SqlValue::Text(s.tags.clone()));
    r.push(SqlValue::Text(now.to_owned()));
    r.push(SqlValue::Text(now.to_owned()));
    proof {
        assert(row_model(r@) =~= seq![
            SqlValueModel::Text(s.title@),
            SqlValueModel::Text(s.description@),
            SqlValueModel::Text(s.code@),
            SqlValueModel::Text(s.language@),
            SqlValueModel::Text(s.tags@),
            SqlValueModel::Text(now@),
            SqlValueModel::Text(now@),
        ]);
    }
    r
}

/// The parameter list of the snippet update statement.
pub fn snippet_update_params(s: &CodeSnippet, now: &str, id: i32) -> (r: Vec<SqlValue>)
    ensures
        row_model(r@) == seq![
            SqlValueModel::Text(s.title@),
            SqlValueModel::Text(s.description@),
            SqlValueModel::Text(s.code@),
            SqlValueModel::Text(s.language@),
            SqlValueModel::Text(s.tags@),
            SqlValueModel::Text(now@),
            SqlValueModel::Int(id as i64),
        ],
{
    let mut r: Vec<SqlValue> = Vec::new();
    r.push(SqlValue::Text(s.title.clone()));
    r.push(SqlValue::Text(s.description.clone()));
    r.push(SqlValue::Text(s.code.clone()));
    r.push(SqlValue::Text(s.language.clone()));
    r.push(SqlValue::Text(s.tags.clone()));
    r.push(SqlValue::Text(now.to_owned()));
    r.push(SqlValue::Int(id as i64));
    proof {
        assert(row_model(r@) =~= seq![
            SqlValueModel::Text(s.title@),
            SqlValueModel::Text(s.description@),
            SqlValueModel::Text(s.code@),
            SqlValueModel::Text(s.language@),
            SqlValueModel::Text(s.tags@),
            SqlValueModel::Text(now@),
            SqlValueModel::Int(id as i64),
        ]);
    }
    r
}

// ------------------------------------------------------------------
// Command templates
// ------------------------------------------------------------------
/// The shape of a command template row.
pub open spec fn template_row_ok(m: Seq<SqlValueModel>) -> bool {
    &&& m.len() == 7
    &&& opt_id_ok(m[0])
    &&& m[1] is Text
    &&& m[2] is Text
    &&& m[3] is Text
    &&& m[4] is Text
    &&& m[5] is Text
    &&& m[6] is Text
}

/// The template record a well-shaped command template row stands for.
pub open spec fn template_of_row(t: CommandTemplate, m: Seq<SqlValueModel>) -> bool {
    &&& template_row_ok(m)
    &&& t.id == opt_id_of(m[0])
    &&& t.title@ == text_of(m[1])
    &&& t.description@ == text_of(m[2])
    &&& t.command@ == text_of(m[3])
    &&& t.category@ == text_of(m[4])
    &&& t.tags@ == text_of(m[5])
    &&& t.created_at@ == text_of(m[6])
}

/// Map a command template row to the template record.
pub fn template_from_row(row: &Vec<SqlValue>) -> (r: Option<CommandTemplate>)
    ensures
        r is Some <==> template_row_ok(row_model(row@)),
        r matches Some(t) ==> template_of_row(t, row_model(row@)),
{
    if row.len() != 7 {
        return None;
    }
    let id = match read_opt_id(&row[0]) {
        Some(i) => i,
        None => { return None; },
    };
    let title = match read_text(&row[1]) {
        Some(s) => s,
        None => { return None; },
    };
    let description = match read_text(&row[2]) {
        Some(s) => s,
        None => { return None; },
    };
    let command = match read_text(&row[3]) {
        Some(s) => s,
        None => { return None; },
    };
    let category = match read_text(&row[4]) {
        Some(s) => s,
        None => { return None; },
    };
    let tags = match read_text(&row[5]) {
        Some(s) => s,
        None => { return None; },
    };
    let created_at = match read_text(&row[6]) {
        Some(s) => s,
        None => { return None; },
    };
    Some(CommandTemplate { id, title, description, command, category, tags, created_at })
}

/// The parameter list of the template insert statement.
pub fn template_insert_params(t: &CommandTemplate, now: &str) -> (r: Vec<SqlValue>)
    ensures
        row_model(r@) == seq![
            SqlValueModel::Text(t.title@),
            SqlValueModel::Text(t.description@),
            SqlValueModel::Text(t.command@),
            SqlValueModel::Text(t.category@),
            SqlValueModel::Text(t.tags@),
            SqlValueModel::Text(now@),
        ],
{
    let mut r: Vec<SqlValue> = Vec::new();
    r.push(SqlValue::Text(t.title.clone()));
    r.push(SqlValue::Text(t.description.clone()));
    r.push(SqlValue::Text(t.command.clone()));
    r.push(SqlValue::Text(t.category.clone()));
    r.push(SqlValue::Text(t.tags.clone()));
    r.push(SqlValue::Text(now.to_owned()));
    proof {
        assert(row_model(r@) =~= seq![
            SqlValueModel::Text(t.title@),
            SqlValueModel::Text(t.description@),
            SqlValueModel::Text(t.command@),
            SqlValueModel::Text(t.category@),
            SqlValueModel::Text(t.tags@),
            SqlValueModel::Text(now@),
        ]);
    }
    r
}

/// The parameter list of the template update statement: a template keeps
/// its original stamp.
pub fn template_update_params(t: &CommandTemplate, id: i32) -> (r: Vec<SqlValue>)
    ensures
        row_model(r@) == seq![
            SqlValueModel::Text(t.title@),
            SqlValueModel::Text(t.description@),
            SqlValueModel::Text(t.command@),
            SqlValueModel::Text(t.category@),
            SqlValueModel::Text(t.tags@),
            SqlValueModel::Int(id as i64),
        ],
{
    let mut r: Vec<SqlValue> = Vec::new();
    r.push(SqlValue::Text(t.title.clone()));
    r.push(SqlValue::Text(t.description.clone()));
    r.push(SqlValue::Text(t.command.clone()));
    r.push(SqlValue::Text(t.category.clone()));
    r.push(SqlValue::Text(t.tags.clone()));
    r.push(SqlValue::Int(id as i64));
    proof {
        assert(row_model(r@) =~= seq![
            SqlValueModel::Text(t.title@),
            SqlValueModel::Text(t.description@),
            SqlValueModel::Text(t.command@),
            SqlValueModel::Text(t.category@),
            SqlValueModel::Text(t.tags@),
            SqlValueModel::Int(id as i64),
        ]);
    }
    r
}

} // verus!
