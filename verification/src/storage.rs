//! The durable table of secrets: one row for each key, whose value is the
//! sealed text of the secret's plaintext.

use crate::crypto::{
    encrypts, lemma_stored_text_is_longer, opened, reports, reports_no_nonce, Crypto, Fault,
};
use crate::secret::{
    key_length_message, lemma_starts_with_concat, starts_with, valid_text, value_length_message,
    Secret, SecretError, SecretView,
};
use rusqlite::Connection;
use vstd::prelude::*;
use vstd::string::*;

verus! {

/// A connection to an SQLite database.
#[verifier::external_type_specification]
#[verifier::external_body]
pub struct ExConnection(rusqlite::Connection);

/// An error of `rusqlite`.
#[verifier::external_type_specification]
#[verifier::external_body]
pub struct ExSqlError(rusqlite::Error);

/// A prepared statement of `rusqlite`.
#[verifier::external_type_specification]
#[verifier::external_body]
pub struct ExStatement<'conn>(rusqlite::Statement<'conn>);

/// The cursor over the rows of a query.
#[verifier::external_type_specification]
#[verifier::external_body]
pub struct ExRows<'stmt>(rusqlite::Rows<'stmt>);

/// The row at which a cursor stands.
#[verifier::external_type_specification]
#[verifier::external_body]
pub struct ExSqlRow<'stmt>(rusqlite::Row<'stmt>);

/// The path that a connection was opened with: what `Connection::open` was
/// given, not the file name that SQLite later reports.
pub uninterp spec fn opened_path(conn: Connection) -> Seq<char>;

/// `Connection::open`. Not proved: a connection that comes back is one that
/// SQLite opened for `path`, and a path that holds a NUL character, which no C
/// string can hold, is refused. Whether any other path opens is not claimed.
#[verifier::external_body]
fn open_connection(path: &str) -> (r: Result<Connection, rusqlite::Error>)
    ensures
        match r {
            Ok(conn) => opened_path(conn) == path@ && !path@.contains('\0'),
            Err(_) => true,
        },
{
    Connection::open(path)
}

/// `Connection::execute` with text parameters. Nothing is claimed of the
/// outcome.
#[verifier::external_body]
fn execute(conn: &Connection, sql: &str, params: &[&str]) -> (r: Result<usize, rusqlite::Error>) {
    conn.execute(sql, rusqlite::params_from_iter(params))
}

/// `Connection::prepare`. Nothing is claimed of the outcome.
#[verifier::external_body]
fn prepare<'conn>(conn: &'conn Connection, sql: &str) -> (r: Result<
    rusqlite::Statement<'conn>,
    rusqlite::Error,
>) {
    conn.prepare(sql)
}

/// `Statement::query` with text parameters. Nothing is claimed of the outcome.
#[verifier::external_body]
fn query<'stmt>(stmt: &'stmt mut rusqlite::Statement<'_>, params: &[&str]) -> (r: Result<
    rusqlite::Rows<'stmt>,
    rusqlite::Error,
>) {
    stmt.query(rusqlite::params_from_iter(params))
}

/// `Rows::next`. Nothing is claimed of the outcome.
#[verifier::external_body]
fn next_row<'rows>(rows: &'rows mut rusqlite::Rows<'_>) -> (r: Result<
    Option<&'rows rusqlite::Row<'rows>>,
    rusqlite::Error,
>) {
    rows.next()
}

/// `Row::get` of a text column. Nothing is claimed of the outcome.
#[verifier::external_body]
fn column_text(row: &rusqlite::Row<'_>, index: usize) -> (r: Result<String, rusqlite::Error>) {
    row.get(index)
}

/// `Statement::query_map` without parameters, collecting the first column of
/// every row as text. Nothing is claimed of the outcome.
#[verifier::external_body]
fn first_column(stmt: &mut rusqlite::Statement<'_>) -> (r: Result<Vec<String>, rusqlite::Error>) {
    stmt.query_map([], |row| row.get(0))?.collect()
}

/// A row as it is stored: a key with the sealed text of its value.
pub struct StoredRow {
    pub key: String,
    pub val: String,
}

/// A row as a pair of texts.
pub struct StoredRowView {
    pub key: Seq<char>,
    pub val: Seq<char>,
}

impl View for StoredRow {
    type V = StoredRowView;

    open spec fn view(&self) -> StoredRowView {
        StoredRowView { key: self.key@, val: self.val@ }
    }
}

/// What a lookup gave, as texts.
pub open spec fn view_of(found: Option<StoredRow>) -> Option<StoredRowView> {
    match found {
        Some(row) => Some(row@),
        None => None,
    }
}

/// Why a lookup gives no secret.
pub enum ReadFault {
    /// The table has no row for the key.
    Missing,
    /// The stored text does not open.
    Sealed(Fault),
    /// The stored key has no accepted length.
    KeyLength,
    /// The stored text opens to a plaintext of no accepted length.
    ValueLength,
}

/// The secret that a lookup stands for under the key `key_bytes`: the row's
/// own key with the plaintext that its value opens to, if both have an accepted
/// length.
pub open spec fn read_back(key_bytes: Seq<u8>, found: Option<StoredRowView>) -> Result<
    SecretView,
    ReadFault,
> {
    match found {
        None => Err(ReadFault::Missing),
        Some(row) => match opened(key_bytes, row.val) {
            Err(fault) => Err(ReadFault::Sealed(fault)),
            Ok(val) => if !valid_text(row.key) {
                Err(ReadFault::KeyLength)
            } else if !valid_text(val) {
                Err(ReadFault::ValueLength)
            } else {
                Ok(SecretView { key: row.key, val })
            },
        },
    }
}

/// Whether `row` is a row that holds `secret` under the key `key_bytes`: it
/// has the secret's key, its value is what encryption stores for the secret's
/// value under some nonce, and it is read back as the secret.
pub open spec fn holds(key_bytes: Seq<u8>, row: StoredRowView, secret: SecretView) -> bool {
    &&& row.key == secret.key
    &&& exists|nonce: Seq<u8>| #[trigger] encrypts(key_bytes, nonce, secret.val, row.val)
    &&& read_back(key_bytes, Some(row)) == Ok::<SecretView, ReadFault>(secret)
}

/// The value of a row that holds a secret is longer than the secret's value:
/// the plaintext is not what is stored, nor is what is stored a part of it.
pub proof fn lemma_stored_value_is_not_the_plaintext(
    key_bytes: Seq<u8>,
    row: StoredRowView,
    secret: SecretView,
)
    requires
        holds(key_bytes, row, secret),
    ensures
        row.val.len() > secret.val.len(),
        row.val != secret.val,
{
    let nonce = choose|nonce: Seq<u8>| #[trigger] encrypts(key_bytes, nonce, secret.val, row.val);
    lemma_stored_text_is_longer(key_bytes, nonce, secret.val, row.val);
}

/// The message for a stored text that opens to a plaintext of no accepted
/// length.
pub open spec fn stored_value_message() -> Seq<char> {
    "Invalid stored value: "@ + value_length_message()
}

/// Whether `e` is the error with which a lookup of `key` answers `fault`.
pub open spec fn reports_read(fault: ReadFault, key: Seq<char>, e: SecretError) -> bool {
    match fault {
        ReadFault::Missing => e matches SecretError::StoreErr(m) && m@
            == "No secret found for key: "@ + key,
        ReadFault::Sealed(inner) => reports(inner, e),
        ReadFault::KeyLength => e matches SecretError::InvalidKey(m) && m@ == key_length_message(),
        ReadFault::ValueLength => e matches SecretError::StoreErr(m) && m@
            == stored_value_message(),
    }
}

/// Whether `r` is the answer that a lookup of `key` owes when the table gave
/// `found`.
pub open spec fn answers(
    r: Result<Secret, SecretError>,
    key_bytes: Seq<u8>,
    key: Seq<char>,
    found: Option<StoredRowView>,
) -> bool {
    match r {
        Ok(secret) => read_back(key_bytes, found) == Ok::<SecretView, ReadFault>(secret@),
        Err(e) => read_back(key_bytes, found) matches Err(fault) && reports_read(fault, key, e),
    }
}

/// Turns what the table gave for `key` into the secret: a missing row is a
/// `StoreErr`, a text that does not open a `CryptoErr`, a text that opens to a
/// plaintext of a length that no value may have a `StoreErr` again, and a
/// stored key of such a length an `InvalidKey`.
pub fn secret_from_row(crypto: &Crypto, key: &str, found: Option<StoredRow>) -> (r: Result<
    Secret,
    SecretError,
>)
    ensures
        answers(r, crypto.key_bytes(), key@, view_of(found)),
{
    let row = match found {
        Some(row) => row,
        None => {
            return Err(SecretError::StoreErr("No secret found for key: ".to_owned().concat(key)));
        },
    };
    let val = match crypto.decrypt(row.val.as_str()) {
        Ok(val) => val,
        Err(e) => {
            return Err(e);
        },
    };
    match Secret::new(row.key, val) {
        Ok(secret) => Ok(secret),
        Err(SecretError::InvalidVal(m)) => Err(
            SecretError::StoreErr("Invalid stored value: ".to_owned().concat(m.as_str())),
        ),
        Err(e) => Err(e),
    }
}

/// Whether `r` is the answer that a lookup of `key` owes for something that
/// the table may have given: a row, or none.
pub open spec fn answers_lookup(r: Result<Secret, SecretError>, key_bytes: Seq<u8>, key: Seq<char>) -> bool {
    exists|found: Option<StoredRowView>| answers(r, key_bytes, key, found)
}

/// Whether `e` is the error of a store that has no key bound.
pub open spec fn reports_unbound(e: SecretError) -> bool {
    e matches SecretError::CryptoErr(m) && m@ == "Crypto not initialized"@
}

/// Whether `e` is the error of a row that the database did not write.
pub open spec fn reports_unsaved(e: SecretError) -> bool {
    e matches SecretError::StoreErr(m) && starts_with(m@, "Failed to save: "@)
}

/// Whether `r` is the error of a lookup that the database did not carry out.
pub open spec fn lookup_failed(r: Result<Secret, SecretError>) -> bool {
    r matches Err(SecretError::StoreErr(m)) && {
        ||| starts_with(m@, "Failed to prepare statement: "@)
        ||| starts_with(m@, "Failed to query: "@)
        ||| starts_with(m@, "Failed to get row: "@)
        ||| starts_with(m@, "Failed to get key: "@)
        ||| starts_with(m@, "Failed to get value: "@)
    }
}

/// A `StoreErr` whose message is `prefix` followed by the database's own words.
fn store_error(prefix: &str, cause: &rusqlite::Error) -> (e: SecretError)
    ensures
        e matches SecretError::StoreErr(m) && starts_with(m@, prefix@),
{
    let detail = cause.to_string();
    let message = prefix.to_owned().concat(detail.as_str());
    proof {
        lemma_starts_with_concat(prefix@, detail@);
    }
    SecretError::StoreErr(message)
}

/// The table `secrets` in an SQLite database, with the key that seals and
/// opens its values once one is bound.
pub struct Store {
    conn: Connection,
    crypto: Option<Crypto>,
}

impl Store {
    /// The connection through which the table is reached.
    pub closed spec fn connection(&self) -> Connection {
        self.conn
    }

    /// The path of the database that the store was opened on.
    pub closed spec fn database(&self) -> Seq<char> {
        opened_path(self.conn)
    }

    /// The bytes of the bound key, if one is bound.
    pub closed spec fn bound_key(&self) -> Option<Seq<u8>> {
        match self.crypto {
            Some(crypto) => Some(crypto.key_bytes()),
            None => None,
        }
    }

    /// Opens the database at `db_path`, creating the file and the table
    /// `secrets` where they are missing. The store that comes back is on that
    /// database and has no key bound yet. A path that holds a NUL character never
    /// opens; of any other path the database decides.
    pub fn new(db_path: &str) -> (r: Result<Store, SecretError>)
        ensures
            match r {
                Ok(store) => {
                    &&& store.database() == db_path@
                    &&& store.bound_key() is None
                    &&& !db_path@.contains('\0')
                },
                Err(SecretError::StoreErr(m)) => starts_with(m@, "Failed to open database: "@)
                    || (!db_path@.contains('\0') && starts_with(m@, "Failed to create table: "@)),
                Err(_) => false,
            },
    {
        let conn = match open_connection(db_path) {
            Ok(conn) => conn,
            Err(e) => {
                return Err(store_error("Failed to open database: ", &e));
            },
        };
        let no_params: [&str; 0] = [];
        match execute(
            &conn,
            "CREATE TABLE IF NOT EXISTS secrets (key TEXT PRIMARY KEY, val TEXT)",
            no_params.as_slice(),
        ) {
            Ok(_) => Ok(Store { conn, crypto: None }),
            Err(e) => Err(store_error("Failed to create table: ", &e)),
        }
    }

    /// Binds the key with which values are sealed and opened from now on.
    pub fn with_crypto(self, crypto: Crypto) -> (store: Store)
        ensures
            store.bound_key() == Some(crypto.key_bytes()),
            store.connection() == self.connection(),
            store.database() == self.database(),
    {
        let mut store = self;
        store.crypto = Some(crypto);
        store
    }

    /// The row that `save` writes for `secret`: the secret's key with its value
    /// sealed under a nonce drawn from the operating system.
    pub fn sealed_row(&self, secret: &Secret) -> (r: Result<StoredRow, SecretError>)
        ensures
            match r {
                Ok(row) => self.bound_key() matches Some(key_bytes) && holds(
                    key_bytes,
                    row@,
                    secret@,
                ),
                Err(e) => if self.bound_key() is None {
                    reports_unbound(e)
                } else {
                    reports_no_nonce(e)
                },
            },
    {
        let crypto = match &self.crypto {
            Some(crypto) => crypto,
            None => {
                return Err(SecretError::CryptoErr("Crypto not initialized".to_owned()));
            },
        };
        let val = secret.val();
        let sealed = match crypto.encrypt(val.as_str()) {
            Ok(sealed) => sealed,
            Err(e) => {
                return Err(e);
            },
        };
        Ok(StoredRow { key: secret.key().clone(), val: sealed })
    }

    /// Seals the value of `secret` and writes it under the secret's key,
    /// replacing the row that the key had.
    pub fn save(&self, secret: &Secret) -> (r: Result<(), SecretError>)
        ensures
            match r {
                Ok(_) => self.bound_key() is Some,
                Err(e) => if self.bound_key() is None {
                    reports_unbound(e)
                } else {
                    reports_no_nonce(e) || reports_unsaved(e)
                },
            },
    {
        let row = match self.sealed_row(secret) {
            Ok(row) => row,
            Err(e) => {
                return Err(e);
            },
        };
        let params: [&str; 2] = [row.key.as_str(), row.val.as_str()];
        match execute(
            &self.conn,
            "INSERT OR REPLACE INTO secrets (key, val) VALUES (?1, ?2)",
            params.as_slice(),
        ) {
            Ok(_) => Ok(()),
            Err(e) => Err(store_error("Failed to save: ", &e)),
        }
    }

    /// Looks `key` up and opens what is stored under it. Where the database
    /// answers, the result is that of `secret_from_row` on the row it gave.
    pub fn get(&self, key: &str) -> (r: Result<Secret, SecretError>)
        ensures
            self.bound_key() is None ==> (r matches Err(e) && reports_unbound(e)),
            self.bound_key() matches Some(key_bytes) ==> (lookup_failed(r) || answers_lookup(
                r,
                key_bytes,
                key@,
            )),
    {
        let crypto = match &self.crypto {
            Some(crypto) => crypto,
            None => {
                return Err(SecretError::CryptoErr("Crypto not initialized".to_owned()));
            },
        };
        let mut stmt = match prepare(&self.conn, "SELECT key, val FROM secrets WHERE key = ?") {
            Ok(stmt) => stmt,
            Err(e) => {
                return Err(store_error("Failed to prepare statement: ", &e));
            },
        };
        let params: [&str; 1] = [key];
        let mut rows = match query(&mut stmt, params.as_slice()) {
            Ok(rows) => rows,
            Err(e) => {
                return Err(store_error("Failed to query: ", &e));
            },
        };
        let found = match next_row(&mut rows) {
            Ok(Some(row)) => {
                let stored_key = match column_text(row, 0) {
                    Ok(text) => text,
                    Err(e) => {
                        return Err(store_error("Failed to get key: ", &e));
                    },
                };
                let stored_val = match column_text(row, 1) {
                    Ok(text) => text,
                    Err(e) => {
                        return Err(store_error("Failed to get value: ", &e));
                    },
                };
                Some(StoredRow { key: stored_key, val: stored_val })
            },
            Ok(None) => None,
            Err(e) => {
                return Err(store_error("Failed to get row: ", &e));
            },
        };
        let ghost given = view_of(found);
        let r = secret_from_row(crypto, key, found);
        assert(self.bound_key() == Some(crypto.key_bytes()));
        assert(answers(r, crypto.key_bytes(), key@, given));
        assert(answers_lookup(r, crypto.key_bytes(), key@));
        r
    }

    /// The keys of all rows, in the order in which the database gives them.
    pub fn list_keys(&self) -> (r: Result<Vec<String>, SecretError>)
        ensures
            r matches Err(e) ==> e is StoreErr,
    {
        let mut stmt = match prepare(&self.conn, "SELECT key FROM secrets") {
            Ok(stmt) => stmt,
            Err(e) => {
                return Err(SecretError::StoreErr(e.to_string()));
            },
        };
        match first_column(&mut stmt) {
            Ok(keys) => Ok(keys),
            Err(e) => Err(SecretError::StoreErr(e.to_string())),
        }
    }

    /// Removes the row of `key`. A key without a row is no error.
    pub fn delete(&self, key: &str) -> (r: Result<(), SecretError>)
        ensures
            r matches Err(e) ==> e matches SecretError::StoreErr(m) && starts_with(
                m@,
                "Failed to delete: "@,
            ),
    {
        let params: [&str; 1] = [key];
        match execute(&self.conn, "DELETE FROM secrets WHERE key = ?", params.as_slice()) {
            Ok(_) => Ok(()),
            Err(e) => Err(store_error("Failed to delete: ", &e)),
        }
    }
}

/// The table `secrets` as a map from each key to the sealed text of its value.
pub type Table = Map<Seq<char>, Seq<char>>;

/// The table after `INSERT OR REPLACE` of `row`.
pub open spec fn upserted(table: Table, row: StoredRowView) -> Table {
    table.insert(row.key, row.val)
}

/// The table after `DELETE` of `key`.
pub open spec fn deleted(table: Table, key: Seq<char>) -> Table {
    table.remove(key)
}

/// What `SELECT` gives for `key`.
pub open spec fn looked_up(table: Table, key: Seq<char>) -> Option<StoredRowView> {
    if table.dom().contains(key) {
        Some(StoredRowView { key, val: table[key] })
    } else {
        None
    }
}

/// Saving twice under one key leaves one row for it, and a lookup then reads
/// back the secret that was saved last, whatever the table held before.
pub proof fn lemma_last_save_is_read_back(
    key_bytes: Seq<u8>,
    table: Table,
    first: StoredRowView,
    second: StoredRowView,
    secret: SecretView,
)
    requires
        first.key == second.key,
        holds(key_bytes, second, secret),
    ensures
        ({
            let after = upserted(upserted(table, first), second);
            &&& after.dom() == table.dom().insert(secret.key)
            &&& looked_up(after, secret.key) == Some(second)
            &&& read_back(key_bytes, looked_up(after, secret.key)) == Ok::<SecretView, ReadFault>(
                secret,
            )
        }),
{
    let after = upserted(upserted(table, first), second);
    assert(after.dom() =~= table.dom().insert(secret.key));
}

/// Deleting a key that has no row changes nothing, and after any delete a
/// lookup of the key finds no row.
pub proof fn lemma_delete(key_bytes: Seq<u8>, table: Table, key: Seq<char>)
    ensures
        !table.dom().contains(key) ==> deleted(table, key) == table,
        looked_up(deleted(table, key), key) is None,
        read_back(key_bytes, looked_up(deleted(table, key), key)) == Err::<SecretView, ReadFault>(
            ReadFault::Missing,
        ),
{
    if !table.dom().contains(key) {
        assert(deleted(table, key) =~= table);
    }
}

} // verus!
