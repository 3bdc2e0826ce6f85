use vstd::prelude::*;

verus! {

/// A single value travelling to or from a database row.
///
/// Numeric (`REAL`) columns are carried as their decimal text in `Real`:
/// the store keeps numbers as text on this side of the database boundary,
/// and the caller renders or parses them as it needs.
#[derive(Clone, Debug, PartialEq)]
pub enum SqlValue {
    Null,
    Int(i64),
    Real(String),
    Text(String),
    Blob(Vec<u8>),
}

/// The mathematical image of a `SqlValue`: strings become character
/// sequences, everything else is carried as is.
pub enum SqlValueModel {
    Null,
    Int(i64),
    Real(Seq<char>),
    Text(Seq<char>),
    Blob(Seq<u8>),
}

impl View for SqlValue {
    type V = SqlValueModel;

    open spec fn view(&self) -> SqlValueModel {
        match self {
            SqlValue::Null => SqlValueModel::Null,
            SqlValue::Int(i) => SqlValueModel::Int(*i),
            SqlValue::Real(s) => SqlValueModel::Real(s@),
            SqlValue::Text(s) => SqlValueModel::Text(s@),
            SqlValue::Blob(b) => SqlValueModel::Blob(b@),
        }
    }
}

/// The image of a whole row.
pub open spec fn row_model(r: Seq<SqlValue>) -> Seq<SqlValueModel> {
    r.map_values(|v: SqlValue| v@)
}

#[derive(Clone, Debug, PartialEq)]
pub struct S3Config {
    pub bucket: String,
    pub region: String,
    pub access_key_id: String,
    pub secret_access_key: String,
}

#[derive(Clone, Debug, PartialEq)]
pub struct Settings {
    pub s3_config: S3Config,
    pub theme: String,
    pub auto_upload: bool,
    pub user_type: String,
}

#[derive(Clone, Debug, PartialEq)]
pub struct Note {
    pub id: Option<i32>,
    pub title: String,
    pub content: String,
    pub category: String,
    pub created_at: String,
    pub updated_at: String,
}

/// One line of an invoice. The three numeric fields hold decimal text
/// (for example `"2"` or `"19.5"`); the GUI side renders them as numbers.
#[derive(Clone, Debug, PartialEq)]
pub struct InvoiceItem {
    pub description: String,
    pub quantity: String,
    pub unit_price: String,
    pub total: String,
}

/// The mathematical image of an `InvoiceItem`.
pub struct ItemModel {
    pub description: Seq<char>,
    pub quantity: Seq<char>,
    pub unit_price: Seq<char>,
    pub total: Seq<char>,
}

impl View for InvoiceItem {
    type V = ItemModel;

    open spec fn view(&self) -> ItemModel {
        ItemModel {
            description: self.description@,
            quantity: self.quantity@,
            unit_price: self.unit_price@,
            total: self.total@,
        }
    }
}

/// The image of a list of invoice items.
pub open spec fn items_model(items: Seq<InvoiceItem>) -> Seq<ItemModel> {
    items.map_values(|it: InvoiceItem| it@)
}

#[derive(Clone, Debug, PartialEq)]
pub struct Invoice {
    pub id: Option<i32>,
    pub invoice_number: String,
    pub client_name: String,
    pub client_email: String,
    pub items: Vec<InvoiceItem>,
    pub subtotal: String,
    pub tax_rate: String,
    pub tax_amount: String,
    pub total: String,
    pub status: String,
    pub due_date: String,
    pub created_at: String,
}

#[derive(Clone, Debug, PartialEq)]
pub struct PortfolioItem {
    pub id: Option<i32>,
    pub symbol: String,
    pub shares: String,
    pub avg_price: String,
    pub current_price: String,
    pub total_value: String,
    pub gain_loss: String,
    pub gain_loss_percent: String,
    pub notes: String,
}

#[derive(Clone, Debug, PartialEq)]
pub struct CodeSnippet {
    pub id: Option<i32>,
    pub title: String,
    pub description: String,
    pub code: String,
    pub language: String,
    pub tags: String,
    pub created_at: String,
    pub updated_at: String,
}

#[derive(Clone, Debug, PartialEq)]
pub struct CommandTemplate {
    pub id: Option<i32>,
    pub title: String,
    pub description: String,
    pub command: String,
    pub category: String,
    pub tags: String,
    pub created_at: String,
}

} // verus!
