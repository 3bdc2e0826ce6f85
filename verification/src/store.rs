use vstd::prelude::*;
use vstd::string::StringExecFns;
use crate::records::{
    SqlValue, SqlValueModel, row_model, items_model, Settings, Note, Invoice, PortfolioItem,
    CodeSnippet, CommandTemplate,
};
use crate::rows::{
    settings_from_row, settings_update_params, settings_default_params, note_from_row,
    note_insert_params, note_update_params, id_params, invoice_from_row, invoice_of_row,
    invoice_insert_params, invoice_update_params, portfolio_from_row, portfolio_insert_params,
    portfolio_update_params, snippet_from_row, snippet_insert_params, snippet_update_params,
    template_from_row, template_insert_params, template_update_params,
};
use crate::json::{items_to_json, wf_items};

verus! {

#[verifier::external_type_specification]
#[verifier::external_body]
pub struct ExConnection(rusqlite::Connection);

#[verifier::external_type_specification]
#[verifier::external_body]
pub struct ExDbError(rusqlite::Error);

#[verifier::external_type_specification]
#[verifier::external_body]
pub struct ExDbValue(rusqlite::types::Value);

/// Relies on rusqlite's `Connection::open`: opens or creates the
/// database file at the given path.
#[verifier::external_body]
fn open_connection(path: &str) -> Result<rusqlite::Connection, rusqlite::Error> {
    rusqlite::Connection::open(path)
}

/// Relies on rusqlite's `Connection::open_in_memory`: opens a fresh
/// database that lives only as long as the connection.
#[verifier::external_body]
fn open_connection_in_memory() -> Result<rusqlite::Connection, rusqlite::Error> {
    rusqlite::Connection::open_in_memory()
}

/// Relies on rusqlite's `Connection::execute` with `params_from_iter`:
/// runs one statement and reports how many rows it changed.
#[verifier::external_body]
fn exec_sql(conn: &rusqlite::Connection, sql: &str, params: Vec<rusqlite::types::Value>) -> Result<
    usize,
    rusqlite::Error,
> {
    conn.execute(sql, rusqlite::params_from_iter(params))
}

/// Relies on rusqlite's `Connection::last_insert_rowid`: the row
/// identity the database assigned to the latest insert on this
/// connection.
#[verifier::external_body]
fn last_rowid(conn: &rusqlite::Connection) -> i64 {
    conn.last_insert_rowid()
}

/// Relies on chrono's `Utc::now` and `DateTime::to_rfc3339`: the moment
/// of a write, rendered in RFC 3339 form.
#[verifier::external_body]
fn now_rfc3339() -> String {
    chrono::Utc::now().to_rfc3339()
}

/// Relies on the `Display` impl of rusqlite's error type: the text of
/// the failure, nothing more.
#[verifier::external_body]
fn db_error_text(e: &rusqlite::Error) -> String {
    e.to_string()
}

/// The prefix every database failure report carries.
pub open spec fn db_error_prefix() -> Seq<char> {
    "Database error: "@
}

/// Does a message report a database failure?
pub open spec fn is_db_error(m: Seq<char>) -> bool {
    db_error_prefix().len() <= m.len() && m.subrange(0, db_error_prefix().len() as int)
        == db_error_prefix()
}

/// The report of a database failure: the prefix, then what the error
/// itself says.
fn describe_db_error(e: &rusqlite::Error) -> (r: String)
    ensures
        is_db_error(r@),
{
    let mut s = String::from_str("Database error: ");
    let text = db_error_text(e);
    s.append(text.as_str());
    proof {
        assert(s@.len() == "Database error: "@.len() + text@.len());
        assert(s@.subrange(0, "Database error: "@.len() as int) =~= "Database error: "@);
    }
    s
}

/// Relies on rusqlite's `Value`: each of the store's values becomes the
/// corresponding bound value. Numeric text is bound as text; on a
/// numeric column SQLite's affinity rules store it as the number it
/// spells.
#[verifier::external_body]
fn to_db_value(v: SqlValue) -> rusqlite::types::Value {
    match v {
        SqlValue::Null => rusqlite::types::Value::Null,
        SqlValue::Int(i) => rusqlite::types::Value::Integer(i),
        SqlValue::Real(s) => rusqlite::types::Value::Text(s),
        SqlValue::Text(s) => rusqlite::types::Value::Text(s),
        SqlValue::Blob(b) => rusqlite::types::Value::Blob(b),
    }
}

/// Relies on rusqlite's `Value`: each variant of a fetched value is
/// carried over one for one; a stored number is carried as the decimal
/// text of its value. This is the fetch half of the value boundary and
/// serves only `query_sql` below.
#[verifier::external_body]
fn from_db_value(v: rusqlite::types::Value) -> SqlValue {
    match v {
        rusqlite::types::Value::Null => SqlValue::Null,
        rusqlite::types::Value::Integer(i) => SqlValue::Int(i),
        rusqlite::types::Value::Real(x) => SqlValue::Real(x.to_string()),
        rusqlite::types::Value::Text(s) => SqlValue::Text(s),
        rusqlite::types::Value::Blob(b) => SqlValue::Blob(b),
    }
}

/// Relies on rusqlite's `Connection::prepare`, `Statement::query_map`
/// and `Row::get`: runs one query and fetches every row, each row read
/// as its first `ncols` columns, each carried over by `from_db_value`.
/// `Row::get` on a column index below the column count always yields
/// the stored value, so on success every returned row holds exactly
/// `ncols` values; a row with fewer columns makes the whole query fail.
#[verifier::external_body]
fn query_sql(
    conn: &rusqlite::Connection,
    sql: &str,
    params: Vec<rusqlite::types::Value>,
    ncols: usize,
) -> (r: Result<Vec<Vec<SqlValue>>, rusqlite::Error>)
    ensures
        r matches Ok(rows) ==> forall|k: int|
            0 <= k < rows@.len() ==> (#[trigger] rows@[k])@.len() == ncols,
{
    let mut stmt = conn.prepare(sql)?;
    let mapped = stmt.query_map(rusqlite::params_from_iter(params), |row| {
        (0..ncols).map(|i| row.get::<usize, rusqlite::types::Value>(i)).collect()
    })?;
    let rows: Vec<Vec<rusqlite::types::Value>> = mapped.collect::<Result<_, _>>()?;
    Ok(rows.into_iter().map(|r| r.into_iter().map(from_db_value).collect()).collect())
}

/// Turn a parameter list into the values the database binds.
fn to_db_values(params: &Vec<SqlValue>) -> Vec<rusqlite::types::Value> {
    let mut out: Vec<rusqlite::types::Value> = Vec::new();
    let mut i: usize = 0;
    while i < params.len()
        invariant
            i <= params@.len(),
        decreases params@.len() - i,
    {
        out.push(to_db_value(params[i].clone()));
        i = i + 1;
    }
    out
}

/// The report for a fetched row that does not have the shape its table
/// promises.
fn row_error() -> (r: String)
    ensures
        r@ == "Database error: malformed row"@,
        is_db_error(r@),
{
    let s = String::from_str("Database error: malformed row");
    proof {
        reveal_strlit("Database error: malformed row");
        reveal_strlit("Database error: ");
        assert(s@.subrange(0, "Database error: "@.len() as int) =~= "Database error: "@);
    }
    s
}

/// The count a COUNT query fetched: the integer in the first cell of
/// the first row, and a malformed-row report for any other shape.
fn count_from_rows(rows: &Vec<Vec<SqlValue>>) -> (r: Result<i64, String>)
    ensures
        r is Ok <==> rows@.len() > 0 && rows@[0]@.len() > 0 && row_model(rows@[0]@)[0] is Int,
        r matches Ok(c) ==> row_model(rows@[0]@)[0] == SqlValueModel::Int(c),
        r matches Err(m) ==> m@ == "Database error: malformed row"@ && is_db_error(m@),
{
    if rows.len() == 0 {
        return Err(row_error());
    }
    let first = &rows[0];
    if first.len() == 0 {
        return Err(row_error());
    }
    match &first[0] {
        SqlValue::Int(c) => Ok(*c),
        _ => Err(row_error()),
    }
}

/// The whole backing store: one open connection to the database file.
pub struct Store {
    conn: rusqlite::Connection,
}

impl Store {
    /// Open (or create) the database file at `path`.
    pub fn open(path: &str) -> (r: Result<Store, String>)
        ensures
            r matches Err(m) ==> is_db_error(m@),
    {
        match open_connection(path) {
            Ok(conn) => Ok(Store { conn }),
            Err(e) => Err(describe_db_error(&e)),
        }
    }

    /// Open a store that lives in memory only.
    pub fn open_in_memory() -> (r: Result<Store, String>)
        ensures
            r matches Err(m) ==> is_db_error(m@),
    {
        match open_connection_in_memory() {
            Ok(conn) => Ok(Store { conn }),
            Err(e) => Err(describe_db_error(&e)),
        }
    }

    fn run_exec(&self, sql: &str, params: &Vec<SqlValue>) -> (r: Result<usize, String>)
        ensures
            r matches Err(m) ==> is_db_error(m@),
    {
        match exec_sql(&self.conn, sql, to_db_values(params)) {
            Ok(n) => Ok(n),
            Err(e) => Err(describe_db_error(&e)),
        }
    }

    fn run_query(&self, sql: &str, params: &Vec<SqlValue>, ncols: usize) -> (r: Result<
        Vec<Vec<SqlValue>>,
        String,
    >)
        ensures
            r matches Ok(rows) ==> forall|k: int|
                0 <= k < rows@.len() ==> (#[trigger] rows@[k])@.len() == ncols,
            r matches Err(m) ==> is_db_error(m@),
    {
        match query_sql(&self.conn, sql, to_db_values(params), ncols) {
            Ok(rows) => Ok(rows),
            Err(e) => Err(describe_db_error(&e)),
        }
    }

    /// The row identity the database assigned to the latest insert,
    /// narrowed to the identity type records carry.
    fn last_id(&self) -> i32 {
        let r = last_rowid(&self.conn);
        #[verifier::truncate]
        (r as i32)
    }

    /// Create every table the store uses, and write the first settings
    /// row if the settings table is empty: the fetched count is read by
    /// `count_from_rows`, whose contract pins it, and the seed goes in
    /// exactly when it is zero. Every failure reports a database fault.
    pub fn init(&self) -> (r: Result<(), String>)
        ensures
            r matches Err(m) ==> is_db_error(m@),
    {
        let empty: Vec<SqlValue> = Vec::new();
        match self.run_exec(
            "CREATE TABLE IF NOT EXISTS settings (\n            id INTEGER PRIMARY KEY,\n            s3_bucket TEXT,\n            s3_region TEXT,\n            s3_access_key_id TEXT,\n            s3_secret_access_key TEXT,\n            theme TEXT DEFAULT 'light',\n            auto_upload BOOLEAN DEFAULT 0,\n            user_type TEXT DEFAULT 'normal'\n        )",
            &empty,
        ) {
            Ok(_) => (),
            Err(e) => { return Err(e); },
        }
        match self.run_exec(
            "CREATE TABLE IF NOT EXISTS notes (\n            id INTEGER PRIMARY KEY AUTOINCREMENT,\n            title TEXT NOT NULL,\n            content TEXT,\n            category TEXT DEFAULT 'general',\n            created_at TEXT NOT NULL,\n            updated_at TEXT NOT NULL\n        )",
            &empty,
        ) {
            Ok(_) => (),
            Err(e) => { return Err(e); },
        }
        match self.run_exec(
            "CREATE TABLE IF NOT EXISTS invoices (\n            id INTEGER PRIMARY KEY AUTOINCREMENT,\n            invoice_number TEXT NOT NULL,\n            client_name TEXT NOT NULL,\n            client_email TEXT,\n            items TEXT,\n            subtotal REAL DEFAULT 0,\n            tax_rate REAL DEFAULT 0,\n            tax_amount REAL DEFAULT 0,\n            total REAL DEFAULT 0,\n            status TEXT DEFAULT 'draft',\n            due_date TEXT,\n            created_at TEXT NOT NULL\n        )",
            &empty,
        ) {
            Ok(_) => (),
            Err(e) => { return Err(e); },
        }
        match self.run_exec(
            "CREATE TABLE IF NOT EXISTS portfolio (\n            id INTEGER PRIMARY KEY AUTOINCREMENT,\n            symbol TEXT NOT NULL,\n            shares REAL NOT NULL,\n            avg_price REAL NOT NULL,\n            current_price REAL DEFAULT 0,\n            total_value REAL DEFAULT 0,\n            gain_loss REAL DEFAULT 0,\n            gain_loss_percent REAL DEFAULT 0,\n            notes TEXT\n        )",
            &empty,
        ) {
            Ok(_) => (),
            Err(e) => { return Err(e); },
        }
        match self.run_exec(
            "CREATE TABLE IF NOT EXISTS code_snippets (\n            id INTEGER PRIMARY KEY AUTOINCREMENT,\n            title TEXT NOT NULL,\n            description TEXT,\n            code TEXT NOT NULL,\n            language TEXT DEFAULT 'text',\n            tags TEXT,\n            created_at TEXT NOT NULL,\n            updated_at TEXT NOT NULL\n        )",
            &empty,
        ) {
            Ok(_) => (),
            Err(e) => { return Err(e); },
        }
        match self.run_exec(
            "CREATE TABLE IF NOT EXISTS command_templates (\n            id INTEGER PRIMARY KEY AUTOINCREMENT,\n            title TEXT NOT NULL,\n            description TEXT,\n            command TEXT NOT NULL,\n            category TEXT DEFAULT 'general',\n            tags TEXT,\n            created_at TEXT NOT NULL\n        )",
            &empty,
        ) {
            Ok(_) => (),
            Err(e) => { return Err(e); },
        }
        let rows = match self.run_query("SELECT COUNT(*) FROM settings", &empty, 1) {
            Ok(rows) => rows,
            Err(e) => { return Err(e); },
        };
        let count = match count_from_rows(&rows) {
            Ok(c) => c,
            Err(e) => { return Err(e); },
        };
        if count == 0 {
            let params = settings_default_params();
            match self.run_exec(
                "INSERT INTO settings (s3_bucket, s3_region, s3_access_key_id, s3_secret_access_key, theme, auto_upload, user_type) \n             VALUES (?, ?, ?, ?, ?, ?, ?)",
                &params,
            ) {
                Ok(_) => (),
                Err(e) => { return Err(e); },
            }
        }
        Ok(())
    }

    /// Read the settings row. What the fetched row must hold and how
    /// it maps to the record is the contract of `settings_from_row`; a
    /// row of any other shape fails the read, and every failure reports
    /// a database fault.
    pub fn get_settings(&self) -> (r: Result<Settings, String>)
        ensures
            r matches Err(m) ==> is_db_error(m@),
    {
        let empty: Vec<SqlValue> = Vec::new();
        let rows = match self.run_query(
            "SELECT s3_bucket, s3_region, s3_access_key_id, s3_secret_access_key, theme, auto_upload, user_type FROM settings LIMIT 1",
            &empty,
            7,
        ) {
            Ok(rows) => rows,
            Err(e) => { return Err(e); },
        };
        if rows.len() == 0 {
            return Err(row_error());
        }
        match settings_from_row(&rows[0]) {
            Some(s) => Ok(s),
            None => Err(row_error()),
        }
    }

    /// Overwrite the settings row. Every failure reports a database
    /// fault.
    pub fn save_settings(&self, settings: &Settings) -> (r: Result<(), String>)
        ensures
            r matches Err(m) ==> is_db_error(m@),
    {
        let params = settings_update_params(settings);
        match self.run_exec(
            "UPDATE settings SET \n         s3_bucket = ?, s3_region = ?, s3_access_key_id = ?, s3_secret_access_key = ?, \n         theme = ?, auto_upload = ?, user_type = ?",
            &params,
        ) {
            Ok(_) => Ok(()),
            Err(e) => Err(e),
        }
    }

    /// Read every note, the freshest first. What each fetched row must hold and
    /// how it maps to the record is the contract of `note_from_row`;
    /// a row of any other shape fails the whole read, and every failure
    /// reports a database fault.
    pub fn get_notes(&self) -> (r: Result<Vec<Note>, String>)
        ensures
            r matches Err(m) ==> is_db_error(m@),
    {
        let empty: Vec<SqlValue> = Vec::new();
        let rows = match self.run_query(
            "SELECT id, title, content, category, created_at, updated_at FROM notes ORDER BY updated_at DESC",
            &empty,
            6,
        ) {
            Ok(rows) => rows,
            Err(e) => { return Err(e); },
        };
        let mut out: Vec<Note> = Vec::new();
        let mut k: usize = 0;
        while k < rows.len()
            invariant
                k <= rows@.len(),
            decreases rows@.len() - k,
        {
            match note_from_row(&rows[k]) {
                Some(rec) => out.push(rec),
                None => { return Err(row_error()); },
            }
            k = k + 1;
        }
        Ok(out)
    }

    /// Write a note: a note that carries an identity updates that row
    /// and keeps it; one without is inserted and is assigned a fresh
    /// identity by the database. Every failure reports a database fault.
    pub fn save_note(&self, note: &Note) -> (r: Result<i32, String>)
        ensures
            note.id matches Some(i) ==> (r is Ok ==> r == Ok::<i32, String>(i)),
            r matches Err(m) ==> is_db_error(m@),
    {
        let now = now_rfc3339();
        match note.id {
            Some(id) => {
                let params = note_update_params(note, now.as_str(), id);
                match self.run_exec(
                    "UPDATE notes SET title = ?, content = ?, category = ?, updated_at = ? WHERE id = ?",
                    &params,
                ) {
                    Ok(_) => Ok(id),
                    Err(e) => Err(e),
                }
            },
            None => {
                let params = note_insert_params(note, now.as_str());
                match self.run_exec(
                    "INSERT INTO notes (title, content, category, created_at, updated_at) VALUES (?, ?, ?, ?, ?)",
                    &params,
                ) {
                    Ok(_) => Ok(self.last_id()),
                    Err(e) => Err(e),
                }
            },
        }
    }

    /// Delete the note with the given identity. Every failure reports a
    /// database fault.
    pub fn delete_note(&self, id: i32) -> (r: Result<(), String>)
        ensures
            r matches Err(m) ==> is_db_error(m@),
    {
        let params = id_params(id);
        match self.run_exec("DELETE FROM notes WHERE id = ?", &params) {
            Ok(_) => Ok(()),
            Err(e) => Err(e),
        }
    }

    /// Read every invoice, the freshest first. What each fetched row must hold and
    /// how it maps to the record is the contract of `invoice_from_row`;
    /// a row of any other shape fails the whole read, and every failure
    /// reports a database fault. Every invoice handed back carries line
    /// items fit for re-encoding, or none at all.
    pub fn get_invoices(&self) -> (r: Result<Vec<Invoice>, String>)
        ensures
            r matches Ok(out) ==> forall|t: int|
                #![trigger out@[t]]
                0 <= t < out@.len() ==> wf_items(items_model(out@[t].items@)) || out@[t].items@.len()
                    == 0,
            r matches Err(m) ==> is_db_error(m@),
    {
        let empty: Vec<SqlValue> = Vec::new();
        let rows = match self.run_query(
            "SELECT id, invoice_number, client_name, client_email, items, subtotal, tax_rate, tax_amount, total, status, due_date, created_at FROM invoices ORDER BY created_at DESC",
            &empty,
            12,
        ) {
            Ok(rows) => rows,
            Err(e) => { return Err(e); },
        };
        let mut out: Vec<Invoice> = Vec::new();
        let mut k: usize = 0;
        while k < rows.len()
            invariant
                k <= rows@.len(),
                forall|t: int|
                    #![trigger out@[t]]
                    0 <= t < out@.len() ==> wf_items(items_model(out@[t].items@))
                        || out@[t].items@.len() == 0,
            decreases rows@.len() - k,
        {
            let rec = match invoice_from_row(&rows[k]) {
                Some(rec) => rec,
                None => { return Err(row_error()); },
            };
            let ghost pre = out@;
            proof {
                assert(invoice_of_row(rec, row_model(rows@[k as int]@)));
            }
            out.push(rec);
            proof {
                assert forall|t: int|
                    #![trigger out@[t]]
                    0 <= t < out@.len() implies wf_items(items_model(out@[t].items@))
                        || out@[t].items@.len() == 0 by {
                    if t < pre.len() {
                        assert(out@[t] == pre[t]);
                    } else {
                        assert(out@[t] == rec);
                    }
                }
            }
            k = k + 1;
        }
        Ok(out)
    }

    /// Write an invoice, its line items rendered as the JSON text the
    /// `items` column stores. Every failure reports a database fault.
    pub fn save_invoice(&self, invoice: &Invoice) -> (r: Result<i32, String>)
        ensures
            invoice.id matches Some(i) ==> (r is Ok ==> r == Ok::<i32, String>(i)),
            r matches Err(m) ==> is_db_error(m@),
    {
        let now = now_rfc3339();
        let items_json = items_to_json(&invoice.items);
        match invoice.id {
            Some(id) => {
                let params = invoice_update_params(invoice, items_json.as_str(), id);
                match self.run_exec(
                    "UPDATE invoices SET invoice_number = ?, client_name = ?, client_email = ?, items = ?, subtotal = ?, tax_rate = ?, tax_amount = ?, total = ?, status = ?, due_date = ? WHERE id = ?",
                    &params,
                ) {
                    Ok(_) => Ok(id),
                    Err(e) => Err(e),
                }
            },
            None => {
                let params = invoice_insert_params(invoice, items_json.as_str(), now.as_str());
                match self.run_exec(
                    "INSERT INTO invoices (invoice_number, client_name, client_email, items, subtotal, tax_rate, tax_amount, total, status, due_date, created_at) VALUES (?, ?, ?, ?, ?, ?, ?, ?, ?, ?, ?)",
                    &params,
                ) {
                    Ok(_) => Ok(self.last_id()),
                    Err(e) => Err(e),
                }
            },
        }
    }

    /// Read the whole portfolio, ordered by symbol. What each fetched row must hold and
    /// how it maps to the record is the contract of `portfolio_from_row`;
    /// a row of any other shape fails the whole read, and every failure
    /// reports a database fault.
    pub fn get_portfolio(&self) -> (r: Result<Vec<PortfolioItem>, String>)
        ensures
            r matches Err(m) ==> is_db_error(m@),
    {
        let empty: Vec<SqlValue> = Vec::new();
        let rows = match self.run_query(
            "SELECT id, symbol, shares, avg_price, current_price, total_value, gain_loss, gain_loss_percent, notes FROM portfolio ORDER BY symbol",
            &empty,
            9,
        ) {
            Ok(rows) => rows,
            Err(e) => { return Err(e); },
        };
        let mut out: Vec<PortfolioItem> = Vec::new();
        let mut k: usize = 0;
        while k < rows.len()
            invariant
                k <= rows@.len(),
            decreases rows@.len() - k,
        {
            match portfolio_from_row(&rows[k]) {
                Some(rec) => out.push(rec),
                None => { return Err(row_error()); },
            }
            k = k + 1;
        }
        Ok(out)
    }

    /// Write a portfolio position: update when it carries an identity,
    /// insert when it does not. Every failure reports a database fault.
    pub fn save_portfolio_item(&self, item: &PortfolioItem) -> (r: Result<i32, String>)
        ensures
            item.id matches Some(i) ==> (r is Ok ==> r == Ok::<i32, String>(i)),
            r matches Err(m) ==> is_db_error(m@),
    {
        match item.id {
            Some(id) => {
                let params = portfolio_update_params(item, id);
                match self.run_exec(
                    "UPDATE portfolio SET symbol = ?, shares = ?, avg_price = ?, current_price = ?, total_value = ?, gain_loss = ?, gain_loss_percent = ?, notes = ? WHERE id = ?",
                    &params,
                ) {
                    Ok(_) => Ok(id),
                    Err(e) => Err(e),
                }
            },
            None => {
                let params = portfolio_insert_params(item);
                match self.run_exec(
                    "INSERT INTO portfolio (symbol, shares, avg_price, current_price, total_value, gain_loss, gain_loss_percent, notes) VALUES (?, ?, ?, ?, ?, ?, ?, ?)",
                    &params,
                ) {
                    Ok(_) => Ok(self.last_id()),
                    Err(e) => Err(e),
                }
            },
        }
    }

    /// Read every code snippet, the freshest first. What each fetched row must hold and
    /// how it maps to the record is the contract of `snippet_from_row`;
    /// a row of any other shape fails the whole read, and every failure
    /// reports a database fault.
    pub fn get_code_snippets(&self) -> (r: Result<Vec<CodeSnippet>, String>)
        ensures
            r matches Err(m) ==> is_db_error(m@),
    {
        let empty: Vec<SqlValue> = Vec::new();
        let rows = match self.run_query(
            "SELECT id, title, description, code, language, tags, created_at, updated_at FROM code_snippets ORDER BY updated_at DESC",
            &empty,
            8,
        ) {
            Ok(rows) => rows,
            Err(e) => { return Err(e); },
        };
        let mut out: Vec<CodeSnippet> = Vec::new();
        let mut k: usize = 0;
        while k < rows.len()
            invariant
                k <= rows@.len(),
            decreases rows@.len() - k,
        {
            match snippet_from_row(&rows[k]) {
                Some(rec) => out.push(rec),
                None => { return Err(row_error()); },
            }
            k = k + 1;
        }
        Ok(out)
    }

    /// Write a code snippet: update when it carries an identity, insert
    /// when it does not. Every failure reports a database fault.
    pub fn save_code_snippet(&self, snippet: &CodeSnippet) -> (r: Result<i32, String>)
        ensures
            snippet.id matches Some(i) ==> (r is Ok ==> r == Ok::<i32, String>(i)),
            r matches Err(m) ==> is_db_error(m@),
    {
        let now = now_rfc3339();
        match snippet.id {
            Some(id) => {
                let params = snippet_update_params(snippet, now.as_str(), id);
                match self.run_exec(
                    "UPDATE code_snippets SET title = ?, description = ?, code = ?, language = ?, tags = ?, updated_at = ? WHERE id = ?",
                    &params,
                ) {
                    Ok(_) => Ok(id),
                    Err(e) => Err(e),
                }
            },
            None => {
                let params = snippet_insert_params(snippet, now.as_str());
                match self.run_exec(
                    "INSERT INTO code_snippets (title, description, code, language, tags, created_at, updated_at) VALUES (?, ?, ?, ?, ?, ?, ?)",
                    &params,
                ) {
                    Ok(_) => Ok(self.last_id()),
                    Err(e) => Err(e),
                }
            },
        }
    }

    /// Read every command template, the freshest first. What each fetched row must hold and
    /// how it maps to the record is the contract of `template_from_row`;
    /// a row of any other shape fails the whole read, and every failure
    /// reports a database fault.
    pub fn get_command_templates(&self) -> (r: Result<Vec<CommandTemplate>, String>)
        ensures
            r matches Err(m) ==> is_db_error(m@),
    {
        let empty: Vec<SqlValue> = Vec::new();
        let rows = match self.run_query(
            "SELECT id, title, description, command, category, tags, created_at FROM command_templates ORDER BY created_at DESC",
            &empty,
            7,
        ) {
            Ok(rows) => rows,
            Err(e) => { return Err(e); },
        };
        let mut out: Vec<CommandTemplate> = Vec::new();
        let mut k: usize = 0;
        while k < rows.len()
            invariant
                k <= rows@.len(),
            decreases rows@.len() - k,
        {
            match template_from_row(&rows[k]) {
                Some(rec) => out.push(rec),
                None => { return Err(row_error()); },
            }
            k = k + 1;
        }
        Ok(out)
    }

    /// Write a command template: update when it carries an identity,
    /// insert when it does not. A template keeps its first stamp. Every
    /// failure reports a database fault.
    pub fn save_command_template(&self, template: &CommandTemplate) -> (r: Result<i32, String>)
        ensures
            template.id matches Some(i) ==> (r is Ok ==> r == Ok::<i32, String>(i)),
            r matches Err(m) ==> is_db_error(m@),
    {
        let now = now_rfc3339();
        match template.id {
            Some(id) => {
                let params = template_update_params(template, id);
                match self.run_exec(
                    "UPDATE command_templates SET title = ?, description = ?, command = ?, category = ?, tags = ? WHERE id = ?",
                    &params,
                ) {
                    Ok(_) => Ok(id),
                    Err(e) => Err(e),
                }
            },
            None => {
                let params = template_insert_params(template, now.as_str());
                match self.run_exec(
                    "INSERT INTO command_templates (title, description, command, category, tags, created_at) VALUES (?, ?, ?, ?, ?, ?)",
                    &params,
                ) {
                    Ok(_) => Ok(self.last_id()),
                    Err(e) => Err(e),
                }
            },
        }
    }
}

} // verus!
